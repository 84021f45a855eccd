//! The functions of checked arithmetic, as trees.
use crate::codegen::helpers::{
    checked_add_src, checked_div_src, checked_mod_src, checked_mul_src, checked_sadd_src,
    checked_sdiv_src, checked_smod_src, checked_ssub_n_src, checked_ssub_src, checked_sub_src,
};
use crate::codegen::word::{two, word_bytes, wrap, lemma_bytes_len};
use crate::codegen::yul::{panic_spec, PANIC_DIV_ZERO, PANIC_OVERFLOW};
use crate::codegen::yul_num::lemma_numbers;
use crate::codegen::yul_run::{apply, bytes_at, group_steps, number, put_bytes, run, End, Machine};
use crate::codegen::yul_text::{
    at, fn_head, lemma_at_add, lemma_at_fn, lemma_at_if, lemma_at_inside, lemma_at_line,
    lemma_at_nothing, lemma_at_whole, lemma_joined,
};
use crate::codegen::yul_tree::{
    expr_text, fn_text, group_texts, line, none, num, op1, op2, own2, parts_text, stmt_text, tail,
    var, Code, Op, YulFn, YulStmt,
};
use vstd::prelude::*;

verus! {

/// The code that panics, with a space before it and one behind it.
pub open spec fn panic_code(rich: bool, code: Seq<char>) -> Code {
    if rich {
        tail(
            line(
                line(
                    line(
                        none(),
                        " "@,
                        YulStmt::Do(
                            op2(
                                Op::Mstore,
                                num("0"@),
                                op2(Op::Shl, num("224"@), num("0x4e487b71"@)),
                            ),
                        ),
                    ),
                    " "@,
                    YulStmt::Do(op2(Op::Mstore, num("4"@), num(code))),
                ),
                " "@,
                YulStmt::Do(op2(Op::Revert, num("0"@), num("0x24"@))),
            ),
            " "@,
        )
    } else {
        tail(line(none(), " "@, YulStmt::Do(op2(Op::Revert, num("0"@), num("0"@)))), " "@)
    }
}

/// What a panic reverts with: nothing, or the selector of `Panic(uint256)` and the code.
pub open spec fn panic_data(rich: bool, code: Seq<char>) -> Seq<u8> {
    if rich {
        word_bytes(wrap(0x4e487b71 * two(224))).subrange(0, 4) + word_bytes(number(code))
    } else {
        Seq::empty()
    }
}

proof fn lemma_panic_text(rich: bool, code: Seq<char>)
    ensures
        parts_text(panic_code(rich, code).parts, panic_code(rich, code).parts.len()) == " "@
            + panic_spec(rich, code),
        panic_code(rich, code).tail == " "@,
{
    if rich {
        let s1 = YulStmt::Do(
            op2(Op::Mstore, num("0"@), op2(Op::Shl, num("224"@), num("0x4e487b71"@))),
        );
        let s2 = YulStmt::Do(op2(Op::Mstore, num("4"@), num(code)));
        let s3 = YulStmt::Do(op2(Op::Revert, num("0"@), num("0x24"@)));
        let t1 = "mstore(0, shl(224, 0x4e487b71))"@;
        let t2 = "mstore(4, "@ + code + ")"@;
        let t3 = "revert(0, 0x24)"@;
        assert(stmt_text(s1) =~= t1) by {
            broadcast use group_texts;

            reveal_strlit("mstore(0, shl(224, 0x4e487b71))");
            reveal_strlit("mstore");
            reveal_strlit("shl");
            reveal_strlit("(");
            reveal_strlit(")");
            reveal_strlit(", ");
            reveal_strlit("0");
            reveal_strlit("224");
            reveal_strlit("0x4e487b71");
        }
        assert(stmt_text(s2) =~= t2) by {
            broadcast use group_texts;

            reveal_strlit("mstore(4, ");
            reveal_strlit("mstore");
            reveal_strlit("(");
            reveal_strlit("4");
            reveal_strlit(", ");
            assert("mstore(4, "@ =~= "mstore"@ + "("@ + "4"@ + ", "@);
        }
        assert(stmt_text(s3) =~= t3) by {
            broadcast use group_texts;

            reveal_strlit("revert(0, 0x24)");
            reveal_strlit("revert");
            reveal_strlit("(");
            reveal_strlit(")");
            reveal_strlit(", ");
            reveal_strlit("0");
            reveal_strlit("0x24");
        }
        let l1 = "mstore(0, shl(224, 0x4e487b71)) mstore(4, "@;
        let l2 = ") revert(0, 0x24)"@;
        assert(l1 =~= t1 + " "@ + "mstore(4, "@) by {
            reveal_strlit("mstore(0, shl(224, 0x4e487b71)) mstore(4, ");
            reveal_strlit("mstore(0, shl(224, 0x4e487b71))");
            reveal_strlit(" ");
            reveal_strlit("mstore(4, ");
        }
        assert(l2 =~= ")"@ + " "@ + t3) by {
            reveal_strlit(") revert(0, 0x24)");
            reveal_strlit(" ");
            reveal_strlit(")");
            reveal_strlit("revert(0, 0x24)");
        }
        let c1 = line(none(), " "@, s1);
        let c2 = line(c1, " "@, s2);
        let c3 = line(c2, " "@, s3);
        assert(parts_text(c3.parts, c3.parts.len()) == Seq::<char>::empty() + " "@ + t1 + " "@ + t2
            + " "@ + t3) by {
            broadcast use group_texts;

        }
        assert(parts_text(c3.parts, c3.parts.len()) =~= " "@ + (l1 + code + l2));
    } else {
        let s = YulStmt::Do(op2(Op::Revert, num("0"@), num("0"@)));
        assert(stmt_text(s) =~= "revert(0, 0)"@) by {
            broadcast use group_texts;

            reveal_strlit("revert(0, 0)");
            reveal_strlit("revert");
            reveal_strlit("(");
            reveal_strlit(")");
            reveal_strlit(", ");
            reveal_strlit("0");
        }
        let c = line(none(), " "@, s);
        assert(parts_text(c.parts, c.parts.len()) == Seq::<char>::empty() + " "@ + stmt_text(s)) by {
            broadcast use group_texts;

        }
        assert(parts_text(c.parts, c.parts.len()) =~= " "@ + "revert(0, 0)"@);
    }
}

proof fn lemma_panic_at(l: Seq<char>, i: int, j: int, k: int, rich: bool, code: Seq<char>)
    requires
        at(l, i, j, " "@),
        at(l, j, k, panic_spec(rich, code)),
    ensures
        at(
            l,
            i,
            k,
            parts_text(panic_code(rich, code).parts, panic_code(rich, code).parts.len()),
        ),
        panic_code(rich, code).tail == " "@,
{
    lemma_panic_text(rich, code);
    lemma_at_add(l, i, j, k, " "@, panic_spec(rich, code));
}

/// The code that panics reverts with the data of the panic.
pub proof fn law_panic_reverts(
    p: Map<Seq<char>, YulFn>,
    m: Machine,
    d: nat,
    rich: bool,
    code: Seq<char>,
)
    ensures
        run(p, m, panic_code(rich, code), d).1 == End::Revert(panic_data(rich, code)),
{
    lemma_numbers();
    if rich {
        let head = word_bytes(wrap(0x4e487b71 * two(224)));
        let body = word_bytes(number(code));
        let mem1 = put_bytes(m.mem, 0, head);
        let mem2 = put_bytes(mem1, 4, body);
        let s1 = YulStmt::Do(
            op2(Op::Mstore, num("0"@), op2(Op::Shl, num("224"@), num("0x4e487b71"@))),
        );
        let s2 = YulStmt::Do(op2(Op::Mstore, num("4"@), num(code)));
        let c1 = line(none(), " "@, s1);
        let c2 = line(c1, " "@, s2);
        assert(run(p, m, c1, d) == (Machine { mem: mem1, ..m }, End::Next)) by {
            broadcast use group_steps;

            reveal(apply);
        }
        assert(run(p, m, c2, d) == (Machine { mem: mem2, ..m }, End::Next)) by {
            broadcast use group_steps;

            reveal(apply);
        }
        assert(bytes_at(mem2, 0, 36) =~= head.subrange(0, 4) + body) by {
            broadcast use lemma_bytes_len;

        }
        broadcast use group_steps;

        reveal(apply);
    } else {
        assert(bytes_at(m.mem, 0, 0) =~= Seq::<u8>::empty());
        broadcast use group_steps;

        reveal(apply);
    }
}

pub open spec fn checked_add_fn(rich: bool) -> YulFn {
    YulFn {
        name: "checked_add"@,
        params: seq!["a"@, "b"@, "max"@],
        rets: seq!["r"@],
        body: tail(line(line(none(), "\n    "@, YulStmt::Put("r"@, op2(Op::Add, var("a"@), var("b"@)))), "\n    "@, YulStmt::If(op2(Op::Or, op2(Op::Lt, var("r"@), var("a"@)), op2(Op::Gt, var("r"@), var("max"@))), panic_code(rich, PANIC_OVERFLOW@))), "\n"@),
    }
}

proof fn lemma_checked_add_cuts()
    ensures
        at("function checked_add(a, b, max) -> r {\n    r := add(a, b)\n    if or(lt(r, a), gt(r, max)) { "@, 0, 38, "function checked_add(a, b, max) -> r {"@),
        at("function checked_add(a, b, max) -> r {\n    r := add(a, b)\n    if or(lt(r, a), gt(r, max)) { "@, 43, 57, "r := add(a, b)"@),
        at("function checked_add(a, b, max) -> r {\n    r := add(a, b)\n    if or(lt(r, a), gt(r, max)) { "@, 38, 43, "\n    "@),
        at("function checked_add(a, b, max) -> r {\n    r := add(a, b)\n    if or(lt(r, a), gt(r, max)) { "@, 62, 91, "if or(lt(r, a), gt(r, max)) {"@),
        at("function checked_add(a, b, max) -> r {\n    r := add(a, b)\n    if or(lt(r, a), gt(r, max)) { "@, 91, 92, " "@),
        at(" }\n}\n"@, 0, 1, " "@),
        at(" }\n}\n"@, 1, 2, "}"@),
        at("function checked_add(a, b, max) -> r {\n    r := add(a, b)\n    if or(lt(r, a), gt(r, max)) { "@, 57, 62, "\n    "@),
        at(" }\n}\n"@, 2, 3, "\n"@),
        at(" }\n}\n"@, 3, 4, "}"@),
        at(" }\n}\n"@, 4, 5, "\n"@),
{
    let l0 = "function checked_add(a, b, max) -> r {\n    r := add(a, b)\n    if or(lt(r, a), gt(r, max)) { "@;
    reveal_strlit("function checked_add(a, b, max) -> r {\n    r := add(a, b)\n    if or(lt(r, a), gt(r, max)) { ");
    let l1 = " }\n}\n"@;
    reveal_strlit(" }\n}\n");
    reveal_strlit("function checked_add(a, b, max) -> r {");
    reveal_strlit("r := add(a, b)");
    reveal_strlit("\n    ");
    reveal_strlit("if or(lt(r, a), gt(r, max)) {");
    reveal_strlit(" ");
    reveal_strlit("}");
    reveal_strlit("\n");
    assert(l0.subrange(0, 38) =~= "function checked_add(a, b, max) -> r {"@);
    assert(l0.subrange(43, 57) =~= "r := add(a, b)"@);
    assert(l0.subrange(38, 43) =~= "\n    "@);
    assert(l0.subrange(62, 91) =~= "if or(lt(r, a), gt(r, max)) {"@);
    assert(l0.subrange(91, 92) =~= " "@);
    assert(l1.subrange(0, 1) =~= " "@);
    assert(l1.subrange(1, 2) =~= "}"@);
    assert(l0.subrange(57, 62) =~= "\n    "@);
    assert(l1.subrange(2, 3) =~= "\n"@);
    assert(l1.subrange(3, 4) =~= "}"@);
    assert(l1.subrange(4, 5) =~= "\n"@);
}

proof fn lemma_checked_add_pieces(rich: bool)
    ensures
        fn_head(checked_add_fn(rich)) == "function checked_add(a, b, max) -> r {"@,
        stmt_text(YulStmt::Put("r"@, op2(Op::Add, var("a"@), var("b"@)))) == "r := add(a, b)"@,
        "if "@ + expr_text(op2(Op::Or, op2(Op::Lt, var("r"@), var("a"@)), op2(Op::Gt, var("r"@), var("max"@)))) + " {"@ == "if or(lt(r, a), gt(r, max)) {"@,
{
    lemma_joined("a"@, "b"@, "max"@, Seq::empty(), Seq::empty());
    lemma_joined("r"@, Seq::empty(), Seq::empty(), Seq::empty(), Seq::empty());
    assert(fn_head(checked_add_fn(rich)) =~= "function checked_add(a, b, max) -> r {"@) by {
        broadcast use group_texts;

        reveal_strlit(" -> ");
        reveal_strlit(" {");
        reveal_strlit("(");
        reveal_strlit(")");
        reveal_strlit(", ");
        reveal_strlit("a");
        reveal_strlit("b");
        reveal_strlit("checked_add");
        reveal_strlit("function ");
        reveal_strlit("function checked_add(a, b, max) -> r {");
        reveal_strlit("max");
        reveal_strlit("r");
    }
    assert(stmt_text(YulStmt::Put("r"@, op2(Op::Add, var("a"@), var("b"@)))) =~= "r := add(a, b)"@) by {
        broadcast use group_texts;

        reveal_strlit(" := ");
        reveal_strlit("(");
        reveal_strlit(")");
        reveal_strlit(", ");
        reveal_strlit("a");
        reveal_strlit("add");
        reveal_strlit("b");
        reveal_strlit("r");
        reveal_strlit("r := add(a, b)");
    }
    assert("if "@ + expr_text(op2(Op::Or, op2(Op::Lt, var("r"@), var("a"@)), op2(Op::Gt, var("r"@), var("max"@)))) + " {"@ =~= "if or(lt(r, a), gt(r, max)) {"@) by {
        broadcast use group_texts;

        reveal_strlit(" {");
        reveal_strlit("(");
        reveal_strlit(")");
        reveal_strlit(", ");
        reveal_strlit("a");
        reveal_strlit("gt");
        reveal_strlit("if ");
        reveal_strlit("if or(lt(r, a), gt(r, max)) {");
        reveal_strlit("lt");
        reveal_strlit("max");
        reveal_strlit("or");
        reveal_strlit("r");
    }
}

/// The text of `checked_add` is that of the function that it stands for.
pub proof fn lemma_checked_add_text(rich: bool)
    ensures
        checked_add_src(rich) == fn_text(checked_add_fn(rich)) + "\n"@,
{
    let l = checked_add_src(rich);
    let l0 = "function checked_add(a, b, max) -> r {\n    r := add(a, b)\n    if or(lt(r, a), gt(r, max)) { "@;
    assert(l0.len() == 92) by {
        reveal_strlit("function checked_add(a, b, max) -> r {\n    r := add(a, b)\n    if or(lt(r, a), gt(r, max)) { ");
    }
    let q1: int = 92;
    let p1 = panic_spec(rich, PANIC_OVERFLOW@);
    let q2: int = q1 + p1.len();
    let l2 = " }\n}\n"@;
    assert(l2.len() == 5) by {
        reveal_strlit(" }\n}\n");
    }
    assert(at(l, 0, (0 + l0.len()) as int, l0)) by {
        assert(l.subrange(0, (0 + l0.len()) as int) =~= l0);
    }
    assert(at(l, q1, (q1 + p1.len()) as int, p1)) by {
        assert(l.subrange(q1, (q1 + p1.len()) as int) =~= p1);
    }
    assert(at(l, q2, (q2 + l2.len()) as int, l2)) by {
        assert(l.subrange(q2, (q2 + l2.len()) as int) =~= l2);
    }
    lemma_checked_add_cuts();
    lemma_checked_add_pieces(rich);
    lemma_at_inside(l, 0, l0, 0, 38, "function checked_add(a, b, max) -> r {"@);
    let f0 = checked_add_fn(rich);
    lemma_at_nothing(l, 38);
    let k1 = none();
    let s2 = YulStmt::Put("r"@, op2(Op::Add, var("a"@), var("b"@)));
    lemma_at_inside(l, 0, l0, 43, 57, "r := add(a, b)"@);
    lemma_at_inside(l, 0, l0, 38, 43, "\n    "@);
    lemma_at_line(l, 38, 38, 43, 57, k1, "\n    "@, s2);
    let k3 = line(k1, "\n    "@, s2);
    lemma_at_inside(l, 0, l0, 62, 91, "if or(lt(r, a), gt(r, max)) {"@);
    let c4 = op2(Op::Or, op2(Op::Lt, var("r"@), var("a"@)), op2(Op::Gt, var("r"@), var("max"@)));
    lemma_at_inside(l, 0, l0, 91, 92, " "@);
    lemma_at_inside(l, q2, l2, 0, 1, " "@);
    lemma_panic_at(l, 91, 92, q2 + 0, rich, PANIC_OVERFLOW@);
    let b5 = panic_code(rich, PANIC_OVERFLOW@);
    lemma_at_inside(l, q2, l2, 1, 2, "}"@);
    let s6 = YulStmt::If(c4, b5);
    lemma_at_if(l, 62, 91, q2 + 0, q2 + 1, c4, b5);
    lemma_at_inside(l, 0, l0, 57, 62, "\n    "@);
    lemma_at_line(l, 38, 57, 62, q2 + 2, k3, "\n    "@, s6);
    let k7 = line(k3, "\n    "@, s6);
    lemma_at_inside(l, q2, l2, 2, 3, "\n"@);
    let k8 = tail(k7, "\n"@);
    lemma_at_inside(l, q2, l2, 3, 4, "}"@);
    assert(f0.body == k8);
    lemma_at_fn(l, 0, 38, q2 + 2, q2 + 3, f0);
    lemma_at_inside(l, q2, l2, 4, 5, "\n"@);
    lemma_at_add(l, 0, q2 + 4, q2 + 5, fn_text(f0), "\n"@);
    lemma_at_whole(l, fn_text(f0) + "\n"@);
}

pub open spec fn checked_sub_fn(rich: bool) -> YulFn {
    YulFn {
        name: "checked_sub"@,
        params: seq!["a"@, "b"@],
        rets: seq!["r"@],
        body: tail(line(line(none(), "\n    "@, YulStmt::If(op2(Op::Lt, var("a"@), var("b"@)), panic_code(rich, PANIC_OVERFLOW@))), "\n    "@, YulStmt::Put("r"@, op2(Op::Sub, var("a"@), var("b"@)))), "\n"@),
    }
}

proof fn lemma_checked_sub_cuts()
    ensures
        at("function checked_sub(a, b) -> r {\n    if lt(a, b) { "@, 0, 33, "function checked_sub(a, b) -> r {"@),
        at("function checked_sub(a, b) -> r {\n    if lt(a, b) { "@, 38, 51, "if lt(a, b) {"@),
        at("function checked_sub(a, b) -> r {\n    if lt(a, b) { "@, 51, 52, " "@),
        at(" }\n    r := sub(a, b)\n}\n"@, 0, 1, " "@),
        at(" }\n    r := sub(a, b)\n}\n"@, 1, 2, "}"@),
        at("function checked_sub(a, b) -> r {\n    if lt(a, b) { "@, 33, 38, "\n    "@),
        at(" }\n    r := sub(a, b)\n}\n"@, 7, 21, "r := sub(a, b)"@),
        at(" }\n    r := sub(a, b)\n}\n"@, 2, 7, "\n    "@),
        at(" }\n    r := sub(a, b)\n}\n"@, 21, 22, "\n"@),
        at(" }\n    r := sub(a, b)\n}\n"@, 22, 23, "}"@),
        at(" }\n    r := sub(a, b)\n}\n"@, 23, 24, "\n"@),
{
    let l0 = "function checked_sub(a, b) -> r {\n    if lt(a, b) { "@;
    reveal_strlit("function checked_sub(a, b) -> r {\n    if lt(a, b) { ");
    let l1 = " }\n    r := sub(a, b)\n}\n"@;
    reveal_strlit(" }\n    r := sub(a, b)\n}\n");
    reveal_strlit("function checked_sub(a, b) -> r {");
    reveal_strlit("if lt(a, b) {");
    reveal_strlit(" ");
    reveal_strlit("}");
    reveal_strlit("\n    ");
    reveal_strlit("r := sub(a, b)");
    reveal_strlit("\n");
    assert(l0.subrange(0, 33) =~= "function checked_sub(a, b) -> r {"@);
    assert(l0.subrange(38, 51) =~= "if lt(a, b) {"@);
    assert(l0.subrange(51, 52) =~= " "@);
    assert(l1.subrange(0, 1) =~= " "@);
    assert(l1.subrange(1, 2) =~= "}"@);
    assert(l0.subrange(33, 38) =~= "\n    "@);
    assert(l1.subrange(7, 21) =~= "r := sub(a, b)"@);
    assert(l1.subrange(2, 7) =~= "\n    "@);
    assert(l1.subrange(21, 22) =~= "\n"@);
    assert(l1.subrange(22, 23) =~= "}"@);
    assert(l1.subrange(23, 24) =~= "\n"@);
}

proof fn lemma_checked_sub_pieces(rich: bool)
    ensures
        fn_head(checked_sub_fn(rich)) == "function checked_sub(a, b) -> r {"@,
        "if "@ + expr_text(op2(Op::Lt, var("a"@), var("b"@))) + " {"@ == "if lt(a, b) {"@,
        stmt_text(YulStmt::Put("r"@, op2(Op::Sub, var("a"@), var("b"@)))) == "r := sub(a, b)"@,
{
    lemma_joined("a"@, "b"@, Seq::empty(), Seq::empty(), Seq::empty());
    lemma_joined("r"@, Seq::empty(), Seq::empty(), Seq::empty(), Seq::empty());
    assert(fn_head(checked_sub_fn(rich)) =~= "function checked_sub(a, b) -> r {"@) by {
        broadcast use group_texts;

        reveal_strlit(" -> ");
        reveal_strlit(" {");
        reveal_strlit("(");
        reveal_strlit(")");
        reveal_strlit(", ");
        reveal_strlit("a");
        reveal_strlit("b");
        reveal_strlit("checked_sub");
        reveal_strlit("function ");
        reveal_strlit("function checked_sub(a, b) -> r {");
        reveal_strlit("r");
    }
    assert("if "@ + expr_text(op2(Op::Lt, var("a"@), var("b"@))) + " {"@ =~= "if lt(a, b) {"@) by {
        broadcast use group_texts;

        reveal_strlit(" {");
        reveal_strlit("(");
        reveal_strlit(")");
        reveal_strlit(", ");
        reveal_strlit("a");
        reveal_strlit("b");
        reveal_strlit("if ");
        reveal_strlit("if lt(a, b) {");
        reveal_strlit("lt");
    }
    assert(stmt_text(YulStmt::Put("r"@, op2(Op::Sub, var("a"@), var("b"@)))) =~= "r := sub(a, b)"@) by {
        broadcast use group_texts;

        reveal_strlit(" := ");
        reveal_strlit("(");
        reveal_strlit(")");
        reveal_strlit(", ");
        reveal_strlit("a");
        reveal_strlit("b");
        reveal_strlit("r");
        reveal_strlit("r := sub(a, b)");
        reveal_strlit("sub");
    }
}

/// The text of `checked_sub` is that of the function that it stands for.
pub proof fn lemma_checked_sub_text(rich: bool)
    ensures
        checked_sub_src(rich) == fn_text(checked_sub_fn(rich)) + "\n"@,
{
    let l = checked_sub_src(rich);
    let l0 = "function checked_sub(a, b) -> r {\n    if lt(a, b) { "@;
    assert(l0.len() == 52) by {
        reveal_strlit("function checked_sub(a, b) -> r {\n    if lt(a, b) { ");
    }
    let q1: int = 52;
    let p1 = panic_spec(rich, PANIC_OVERFLOW@);
    let q2: int = q1 + p1.len();
    let l2 = " }\n    r := sub(a, b)\n}\n"@;
    assert(l2.len() == 24) by {
        reveal_strlit(" }\n    r := sub(a, b)\n}\n");
    }
    assert(at(l, 0, (0 + l0.len()) as int, l0)) by {
        assert(l.subrange(0, (0 + l0.len()) as int) =~= l0);
    }
    assert(at(l, q1, (q1 + p1.len()) as int, p1)) by {
        assert(l.subrange(q1, (q1 + p1.len()) as int) =~= p1);
    }
    assert(at(l, q2, (q2 + l2.len()) as int, l2)) by {
        assert(l.subrange(q2, (q2 + l2.len()) as int) =~= l2);
    }
    lemma_checked_sub_cuts();
    lemma_checked_sub_pieces(rich);
    lemma_at_inside(l, 0, l0, 0, 33, "function checked_sub(a, b) -> r {"@);
    let f0 = checked_sub_fn(rich);
    lemma_at_nothing(l, 33);
    let k1 = none();
    lemma_at_inside(l, 0, l0, 38, 51, "if lt(a, b) {"@);
    let c2 = op2(Op::Lt, var("a"@), var("b"@));
    lemma_at_inside(l, 0, l0, 51, 52, " "@);
    lemma_at_inside(l, q2, l2, 0, 1, " "@);
    lemma_panic_at(l, 51, 52, q2 + 0, rich, PANIC_OVERFLOW@);
    let b3 = panic_code(rich, PANIC_OVERFLOW@);
    lemma_at_inside(l, q2, l2, 1, 2, "}"@);
    let s4 = YulStmt::If(c2, b3);
    lemma_at_if(l, 38, 51, q2 + 0, q2 + 1, c2, b3);
    lemma_at_inside(l, 0, l0, 33, 38, "\n    "@);
    lemma_at_line(l, 33, 33, 38, q2 + 2, k1, "\n    "@, s4);
    let k5 = line(k1, "\n    "@, s4);
    let s6 = YulStmt::Put("r"@, op2(Op::Sub, var("a"@), var("b"@)));
    lemma_at_inside(l, q2, l2, 7, 21, "r := sub(a, b)"@);
    lemma_at_inside(l, q2, l2, 2, 7, "\n    "@);
    lemma_at_line(l, 33, q2 + 2, q2 + 7, q2 + 21, k5, "\n    "@, s6);
    let k7 = line(k5, "\n    "@, s6);
    lemma_at_inside(l, q2, l2, 21, 22, "\n"@);
    let k8 = tail(k7, "\n"@);
    lemma_at_inside(l, q2, l2, 22, 23, "}"@);
    assert(f0.body == k8);
    lemma_at_fn(l, 0, 33, q2 + 21, q2 + 22, f0);
    lemma_at_inside(l, q2, l2, 23, 24, "\n"@);
    lemma_at_add(l, 0, q2 + 23, q2 + 24, fn_text(f0), "\n"@);
    lemma_at_whole(l, fn_text(f0) + "\n"@);
}

pub open spec fn checked_mul_fn(rich: bool) -> YulFn {
    YulFn {
        name: "checked_mul"@,
        params: seq!["a"@, "b"@, "max"@],
        rets: seq!["r"@],
        body: tail(line(line(line(none(), "\n    "@, YulStmt::Put("r"@, op2(Op::Mul, var("a"@), var("b"@)))), "\n    "@, YulStmt::If(op2(Op::And, op1(Op::Iszero, op1(Op::Iszero, var("a"@))), op1(Op::Iszero, op2(Op::Eq, op2(Op::Div, var("r"@), var("a"@)), var("b"@)))), panic_code(rich, PANIC_OVERFLOW@))), "\n    "@, YulStmt::If(op2(Op::Gt, var("r"@), var("max"@)), panic_code(rich, PANIC_OVERFLOW@))), "\n"@),
    }
}

proof fn lemma_checked_mul_cuts()
    ensures
        at("function checked_mul(a, b, max) -> r {\n    r := mul(a, b)\n    if and(iszero(iszero(a)), iszero(eq(div(r, a), b))) { "@, 0, 38, "function checked_mul(a, b, max) -> r {"@),
        at("function checked_mul(a, b, max) -> r {\n    r := mul(a, b)\n    if and(iszero(iszero(a)), iszero(eq(div(r, a), b))) { "@, 43, 57, "r := mul(a, b)"@),
        at("function checked_mul(a, b, max) -> r {\n    r := mul(a, b)\n    if and(iszero(iszero(a)), iszero(eq(div(r, a), b))) { "@, 38, 43, "\n    "@),
        at("function checked_mul(a, b, max) -> r {\n    r := mul(a, b)\n    if and(iszero(iszero(a)), iszero(eq(div(r, a), b))) { "@, 62, 115, "if and(iszero(iszero(a)), iszero(eq(div(r, a), b))) {"@),
        at("function checked_mul(a, b, max) -> r {\n    r := mul(a, b)\n    if and(iszero(iszero(a)), iszero(eq(div(r, a), b))) { "@, 115, 116, " "@),
        at(" }\n    if gt(r, max) { "@, 0, 1, " "@),
        at(" }\n    if gt(r, max) { "@, 1, 2, "}"@),
        at("function checked_mul(a, b, max) -> r {\n    r := mul(a, b)\n    if and(iszero(iszero(a)), iszero(eq(div(r, a), b))) { "@, 57, 62, "\n    "@),
        at(" }\n    if gt(r, max) { "@, 7, 22, "if gt(r, max) {"@),
        at(" }\n    if gt(r, max) { "@, 22, 23, " "@),
        at(" }\n}\n"@, 0, 1, " "@),
        at(" }\n}\n"@, 1, 2, "}"@),
        at(" }\n    if gt(r, max) { "@, 2, 7, "\n    "@),
        at(" }\n}\n"@, 2, 3, "\n"@),
        at(" }\n}\n"@, 3, 4, "}"@),
        at(" }\n}\n"@, 4, 5, "\n"@),
{
    let l0 = "function checked_mul(a, b, max) -> r {\n    r := mul(a, b)\n    if and(iszero(iszero(a)), iszero(eq(div(r, a), b))) { "@;
    reveal_strlit("function checked_mul(a, b, max) -> r {\n    r := mul(a, b)\n    if and(iszero(iszero(a)), iszero(eq(div(r, a), b))) { ");
    let l1 = " }\n    if gt(r, max) { "@;
    reveal_strlit(" }\n    if gt(r, max) { ");
    let l2 = " }\n}\n"@;
    reveal_strlit(" }\n}\n");
    reveal_strlit("function checked_mul(a, b, max) -> r {");
    reveal_strlit("r := mul(a, b)");
    reveal_strlit("\n    ");
    reveal_strlit("if and(iszero(iszero(a)), iszero(eq(div(r, a), b))) {");
    reveal_strlit(" ");
    reveal_strlit("}");
    reveal_strlit("if gt(r, max) {");
    reveal_strlit("\n");
    assert(l0.subrange(0, 38) =~= "function checked_mul(a, b, max) -> r {"@);
    assert(l0.subrange(43, 57) =~= "r := mul(a, b)"@);
    assert(l0.subrange(38, 43) =~= "\n    "@);
    assert(l0.subrange(62, 115) =~= "if and(iszero(iszero(a)), iszero(eq(div(r, a), b))) {"@);
    assert(l0.subrange(115, 116) =~= " "@);
    assert(l1.subrange(0, 1) =~= " "@);
    assert(l1.subrange(1, 2) =~= "}"@);
    assert(l0.subrange(57, 62) =~= "\n    "@);
    assert(l1.subrange(7, 22) =~= "if gt(r, max) {"@);
    assert(l1.subrange(22, 23) =~= " "@);
    assert(l2.subrange(0, 1) =~= " "@);
    assert(l2.subrange(1, 2) =~= "}"@);
    assert(l1.subrange(2, 7) =~= "\n    "@);
    assert(l2.subrange(2, 3) =~= "\n"@);
    assert(l2.subrange(3, 4) =~= "}"@);
    assert(l2.subrange(4, 5) =~= "\n"@);
}

proof fn lemma_checked_mul_pieces(rich: bool)
    ensures
        fn_head(checked_mul_fn(rich)) == "function checked_mul(a, b, max) -> r {"@,
        stmt_text(YulStmt::Put("r"@, op2(Op::Mul, var("a"@), var("b"@)))) == "r := mul(a, b)"@,
        "if "@ + expr_text(op2(Op::And, op1(Op::Iszero, op1(Op::Iszero, var("a"@))), op1(Op::Iszero, op2(Op::Eq, op2(Op::Div, var("r"@), var("a"@)), var("b"@))))) + " {"@ == "if and(iszero(iszero(a)), iszero(eq(div(r, a), b))) {"@,
        "if "@ + expr_text(op2(Op::Gt, var("r"@), var("max"@))) + " {"@ == "if gt(r, max) {"@,
{
    lemma_joined("a"@, "b"@, "max"@, Seq::empty(), Seq::empty());
    lemma_joined("r"@, Seq::empty(), Seq::empty(), Seq::empty(), Seq::empty());
    assert(fn_head(checked_mul_fn(rich)) =~= "function checked_mul(a, b, max) -> r {"@) by {
        broadcast use group_texts;

        reveal_strlit(" -> ");
        reveal_strlit(" {");
        reveal_strlit("(");
        reveal_strlit(")");
        reveal_strlit(", ");
        reveal_strlit("a");
        reveal_strlit("b");
        reveal_strlit("checked_mul");
        reveal_strlit("function ");
        reveal_strlit("function checked_mul(a, b, max) -> r {");
        reveal_strlit("max");
        reveal_strlit("r");
    }
    assert(stmt_text(YulStmt::Put("r"@, op2(Op::Mul, var("a"@), var("b"@)))) =~= "r := mul(a, b)"@) by {
        broadcast use group_texts;

        reveal_strlit(" := ");
        reveal_strlit("(");
        reveal_strlit(")");
        reveal_strlit(", ");
        reveal_strlit("a");
        reveal_strlit("b");
        reveal_strlit("mul");
        reveal_strlit("r");
        reveal_strlit("r := mul(a, b)");
    }
    assert("if "@ + expr_text(op2(Op::And, op1(Op::Iszero, op1(Op::Iszero, var("a"@))), op1(Op::Iszero, op2(Op::Eq, op2(Op::Div, var("r"@), var("a"@)), var("b"@))))) + " {"@ =~= "if and(iszero(iszero(a)), iszero(eq(div(r, a), b))) {"@) by {
        broadcast use group_texts;

        reveal_strlit(" {");
        reveal_strlit("(");
        reveal_strlit(")");
        reveal_strlit(", ");
        reveal_strlit("a");
        reveal_strlit("and");
        reveal_strlit("b");
        reveal_strlit("div");
        reveal_strlit("eq");
        reveal_strlit("if ");
        reveal_strlit("if and(iszero(iszero(a)), iszero(eq(div(r, a), b))) {");
        reveal_strlit("iszero");
        reveal_strlit("r");
    }
    assert("if "@ + expr_text(op2(Op::Gt, var("r"@), var("max"@))) + " {"@ =~= "if gt(r, max) {"@) by {
        broadcast use group_texts;

        reveal_strlit(" {");
        reveal_strlit("(");
        reveal_strlit(")");
        reveal_strlit(", ");
        reveal_strlit("gt");
        reveal_strlit("if ");
        reveal_strlit("if gt(r, max) {");
        reveal_strlit("max");
        reveal_strlit("r");
    }
}

/// The text of `checked_mul` is that of the function that it stands for.
pub proof fn lemma_checked_mul_text(rich: bool)
    ensures
        checked_mul_src(rich) == fn_text(checked_mul_fn(rich)) + "\n"@,
{
    let l = checked_mul_src(rich);
    let l0 = "function checked_mul(a, b, max) -> r {\n    r := mul(a, b)\n    if and(iszero(iszero(a)), iszero(eq(div(r, a), b))) { "@;
    assert(l0.len() == 116) by {
        reveal_strlit("function checked_mul(a, b, max) -> r {\n    r := mul(a, b)\n    if and(iszero(iszero(a)), iszero(eq(div(r, a), b))) { ");
    }
    let q1: int = 116;
    let p1 = panic_spec(rich, PANIC_OVERFLOW@);
    let q2: int = q1 + p1.len();
    let l2 = " }\n    if gt(r, max) { "@;
    assert(l2.len() == 23) by {
        reveal_strlit(" }\n    if gt(r, max) { ");
    }
    let q3: int = q2 + 23;
    let p3 = panic_spec(rich, PANIC_OVERFLOW@);
    let q4: int = q3 + p3.len();
    let l4 = " }\n}\n"@;
    assert(l4.len() == 5) by {
        reveal_strlit(" }\n}\n");
    }
    assert(at(l, 0, (0 + l0.len()) as int, l0)) by {
        assert(l.subrange(0, (0 + l0.len()) as int) =~= l0);
    }
    assert(at(l, q1, (q1 + p1.len()) as int, p1)) by {
        assert(l.subrange(q1, (q1 + p1.len()) as int) =~= p1);
    }
    assert(at(l, q2, (q2 + l2.len()) as int, l2)) by {
        assert(l.subrange(q2, (q2 + l2.len()) as int) =~= l2);
    }
    assert(at(l, q3, (q3 + p3.len()) as int, p3)) by {
        assert(l.subrange(q3, (q3 + p3.len()) as int) =~= p3);
    }
    assert(at(l, q4, (q4 + l4.len()) as int, l4)) by {
        assert(l.subrange(q4, (q4 + l4.len()) as int) =~= l4);
    }
    lemma_checked_mul_cuts();
    lemma_checked_mul_pieces(rich);
    lemma_at_inside(l, 0, l0, 0, 38, "function checked_mul(a, b, max) -> r {"@);
    let f0 = checked_mul_fn(rich);
    lemma_at_nothing(l, 38);
    let k1 = none();
    let s2 = YulStmt::Put("r"@, op2(Op::Mul, var("a"@), var("b"@)));
    lemma_at_inside(l, 0, l0, 43, 57, "r := mul(a, b)"@);
    lemma_at_inside(l, 0, l0, 38, 43, "\n    "@);
    lemma_at_line(l, 38, 38, 43, 57, k1, "\n    "@, s2);
    let k3 = line(k1, "\n    "@, s2);
    lemma_at_inside(l, 0, l0, 62, 115, "if and(iszero(iszero(a)), iszero(eq(div(r, a), b))) {"@);
    let c4 = op2(Op::And, op1(Op::Iszero, op1(Op::Iszero, var("a"@))), op1(Op::Iszero, op2(Op::Eq, op2(Op::Div, var("r"@), var("a"@)), var("b"@))));
    lemma_at_inside(l, 0, l0, 115, 116, " "@);
    lemma_at_inside(l, q2, l2, 0, 1, " "@);
    lemma_panic_at(l, 115, 116, q2 + 0, rich, PANIC_OVERFLOW@);
    let b5 = panic_code(rich, PANIC_OVERFLOW@);
    lemma_at_inside(l, q2, l2, 1, 2, "}"@);
    let s6 = YulStmt::If(c4, b5);
    lemma_at_if(l, 62, 115, q2 + 0, q2 + 1, c4, b5);
    lemma_at_inside(l, 0, l0, 57, 62, "\n    "@);
    lemma_at_line(l, 38, 57, 62, q2 + 2, k3, "\n    "@, s6);
    let k7 = line(k3, "\n    "@, s6);
    lemma_at_inside(l, q2, l2, 7, 22, "if gt(r, max) {"@);
    let c8 = op2(Op::Gt, var("r"@), var("max"@));
    lemma_at_inside(l, q2, l2, 22, 23, " "@);
    lemma_at_inside(l, q4, l4, 0, 1, " "@);
    lemma_panic_at(l, q2 + 22, q2 + 23, q4 + 0, rich, PANIC_OVERFLOW@);
    let b9 = panic_code(rich, PANIC_OVERFLOW@);
    lemma_at_inside(l, q4, l4, 1, 2, "}"@);
    let s10 = YulStmt::If(c8, b9);
    lemma_at_if(l, q2 + 7, q2 + 22, q4 + 0, q4 + 1, c8, b9);
    lemma_at_inside(l, q2, l2, 2, 7, "\n    "@);
    lemma_at_line(l, 38, q2 + 2, q2 + 7, q4 + 2, k7, "\n    "@, s10);
    let k11 = line(k7, "\n    "@, s10);
    lemma_at_inside(l, q4, l4, 2, 3, "\n"@);
    let k12 = tail(k11, "\n"@);
    lemma_at_inside(l, q4, l4, 3, 4, "}"@);
    assert(f0.body == k12);
    lemma_at_fn(l, 0, 38, q4 + 2, q4 + 3, f0);
    lemma_at_inside(l, q4, l4, 4, 5, "\n"@);
    lemma_at_add(l, 0, q4 + 4, q4 + 5, fn_text(f0), "\n"@);
    lemma_at_whole(l, fn_text(f0) + "\n"@);
}

pub open spec fn checked_sadd_fn(rich: bool) -> YulFn {
    YulFn {
        name: "checked_sadd"@,
        params: seq!["a"@, "b"@, "minv"@, "maxv"@],
        rets: seq!["r"@],
        body: tail(line(line(line(none(), "\n    "@, YulStmt::Put("r"@, op2(Op::Add, var("a"@), var("b"@)))), "\n    "@, YulStmt::If(op2(Op::Slt, op2(Op::And, op2(Op::Xor, var("a"@), var("r"@)), op2(Op::Xor, var("b"@), var("r"@))), num("0"@)), panic_code(rich, PANIC_OVERFLOW@))), "\n    "@, YulStmt::If(op2(Op::Or, op2(Op::Slt, var("r"@), var("minv"@)), op2(Op::Sgt, var("r"@), var("maxv"@))), panic_code(rich, PANIC_OVERFLOW@))), "\n"@),
    }
}

proof fn lemma_checked_sadd_cuts()
    ensures
        at("function checked_sadd(a, b, minv, maxv) -> r {\n    r := add(a, b)\n    if slt(and(xor(a, r), xor(b, r)), 0) { "@, 0, 46, "function checked_sadd(a, b, minv, maxv) -> r {"@),
        at("function checked_sadd(a, b, minv, maxv) -> r {\n    r := add(a, b)\n    if slt(and(xor(a, r), xor(b, r)), 0) { "@, 51, 65, "r := add(a, b)"@),
        at("function checked_sadd(a, b, minv, maxv) -> r {\n    r := add(a, b)\n    if slt(and(xor(a, r), xor(b, r)), 0) { "@, 46, 51, "\n    "@),
        at("function checked_sadd(a, b, minv, maxv) -> r {\n    r := add(a, b)\n    if slt(and(xor(a, r), xor(b, r)), 0) { "@, 70, 108, "if slt(and(xor(a, r), xor(b, r)), 0) {"@),
        at("function checked_sadd(a, b, minv, maxv) -> r {\n    r := add(a, b)\n    if slt(and(xor(a, r), xor(b, r)), 0) { "@, 108, 109, " "@),
        at(" }\n    if or(slt(r, minv), sgt(r, maxv)) { "@, 0, 1, " "@),
        at(" }\n    if or(slt(r, minv), sgt(r, maxv)) { "@, 1, 2, "}"@),
        at("function checked_sadd(a, b, minv, maxv) -> r {\n    r := add(a, b)\n    if slt(and(xor(a, r), xor(b, r)), 0) { "@, 65, 70, "\n    "@),
        at(" }\n    if or(slt(r, minv), sgt(r, maxv)) { "@, 7, 42, "if or(slt(r, minv), sgt(r, maxv)) {"@),
        at(" }\n    if or(slt(r, minv), sgt(r, maxv)) { "@, 42, 43, " "@),
        at(" }\n}\n"@, 0, 1, " "@),
        at(" }\n}\n"@, 1, 2, "}"@),
        at(" }\n    if or(slt(r, minv), sgt(r, maxv)) { "@, 2, 7, "\n    "@),
        at(" }\n}\n"@, 2, 3, "\n"@),
        at(" }\n}\n"@, 3, 4, "}"@),
        at(" }\n}\n"@, 4, 5, "\n"@),
{
    let l0 = "function checked_sadd(a, b, minv, maxv) -> r {\n    r := add(a, b)\n    if slt(and(xor(a, r), xor(b, r)), 0) { "@;
    reveal_strlit("function checked_sadd(a, b, minv, maxv) -> r {\n    r := add(a, b)\n    if slt(and(xor(a, r), xor(b, r)), 0) { ");
    let l1 = " }\n    if or(slt(r, minv), sgt(r, maxv)) { "@;
    reveal_strlit(" }\n    if or(slt(r, minv), sgt(r, maxv)) { ");
    let l2 = " }\n}\n"@;
    reveal_strlit(" }\n}\n");
    reveal_strlit("function checked_sadd(a, b, minv, maxv) -> r {");
    reveal_strlit("r := add(a, b)");
    reveal_strlit("\n    ");
    reveal_strlit("if slt(and(xor(a, r), xor(b, r)), 0) {");
    reveal_strlit(" ");
    reveal_strlit("}");
    reveal_strlit("if or(slt(r, minv), sgt(r, maxv)) {");
    reveal_strlit("\n");
    assert(l0.subrange(0, 46) =~= "function checked_sadd(a, b, minv, maxv) -> r {"@);
    assert(l0.subrange(51, 65) =~= "r := add(a, b)"@);
    assert(l0.subrange(46, 51) =~= "\n    "@);
    assert(l0.subrange(70, 108) =~= "if slt(and(xor(a, r), xor(b, r)), 0) {"@);
    assert(l0.subrange(108, 109) =~= " "@);
    assert(l1.subrange(0, 1) =~= " "@);
    assert(l1.subrange(1, 2) =~= "}"@);
    assert(l0.subrange(65, 70) =~= "\n    "@);
    assert(l1.subrange(7, 42) =~= "if or(slt(r, minv), sgt(r, maxv)) {"@);
    assert(l1.subrange(42, 43) =~= " "@);
    assert(l2.subrange(0, 1) =~= " "@);
    assert(l2.subrange(1, 2) =~= "}"@);
    assert(l1.subrange(2, 7) =~= "\n    "@);
    assert(l2.subrange(2, 3) =~= "\n"@);
    assert(l2.subrange(3, 4) =~= "}"@);
    assert(l2.subrange(4, 5) =~= "\n"@);
}

proof fn lemma_checked_sadd_pieces(rich: bool)
    ensures
        fn_head(checked_sadd_fn(rich)) == "function checked_sadd(a, b, minv, maxv) -> r {"@,
        stmt_text(YulStmt::Put("r"@, op2(Op::Add, var("a"@), var("b"@)))) == "r := add(a, b)"@,
        "if "@ + expr_text(op2(Op::Slt, op2(Op::And, op2(Op::Xor, var("a"@), var("r"@)), op2(Op::Xor, var("b"@), var("r"@))), num("0"@))) + " {"@ == "if slt(and(xor(a, r), xor(b, r)), 0) {"@,
        "if "@ + expr_text(op2(Op::Or, op2(Op::Slt, var("r"@), var("minv"@)), op2(Op::Sgt, var("r"@), var("maxv"@)))) + " {"@ == "if or(slt(r, minv), sgt(r, maxv)) {"@,
{
    lemma_joined("a"@, "b"@, "minv"@, "maxv"@, Seq::empty());
    lemma_joined("r"@, Seq::empty(), Seq::empty(), Seq::empty(), Seq::empty());
    assert(fn_head(checked_sadd_fn(rich)) =~= "function checked_sadd(a, b, minv, maxv) -> r {"@) by {
        broadcast use group_texts;

        reveal_strlit(" -> ");
        reveal_strlit(" {");
        reveal_strlit("(");
        reveal_strlit(")");
        reveal_strlit(", ");
        reveal_strlit("a");
        reveal_strlit("b");
        reveal_strlit("checked_sadd");
        reveal_strlit("function ");
        reveal_strlit("function checked_sadd(a, b, minv, maxv) -> r {");
        reveal_strlit("maxv");
        reveal_strlit("minv");
        reveal_strlit("r");
    }
    assert(stmt_text(YulStmt::Put("r"@, op2(Op::Add, var("a"@), var("b"@)))) =~= "r := add(a, b)"@) by {
        broadcast use group_texts;

        reveal_strlit(" := ");
        reveal_strlit("(");
        reveal_strlit(")");
        reveal_strlit(", ");
        reveal_strlit("a");
        reveal_strlit("add");
        reveal_strlit("b");
        reveal_strlit("r");
        reveal_strlit("r := add(a, b)");
    }
    assert("if "@ + expr_text(op2(Op::Slt, op2(Op::And, op2(Op::Xor, var("a"@), var("r"@)), op2(Op::Xor, var("b"@), var("r"@))), num("0"@))) + " {"@ =~= "if slt(and(xor(a, r), xor(b, r)), 0) {"@) by {
        broadcast use group_texts;

        reveal_strlit(" {");
        reveal_strlit("(");
        reveal_strlit(")");
        reveal_strlit(", ");
        reveal_strlit("0");
        reveal_strlit("a");
        reveal_strlit("and");
        reveal_strlit("b");
        reveal_strlit("if ");
        reveal_strlit("if slt(and(xor(a, r), xor(b, r)), 0) {");
        reveal_strlit("r");
        reveal_strlit("slt");
        reveal_strlit("xor");
    }
    assert("if "@ + expr_text(op2(Op::Or, op2(Op::Slt, var("r"@), var("minv"@)), op2(Op::Sgt, var("r"@), var("maxv"@)))) + " {"@ =~= "if or(slt(r, minv), sgt(r, maxv)) {"@) by {
        broadcast use group_texts;

        reveal_strlit(" {");
        reveal_strlit("(");
        reveal_strlit(")");
        reveal_strlit(", ");
        reveal_strlit("if ");
        reveal_strlit("if or(slt(r, minv), sgt(r, maxv)) {");
        reveal_strlit("maxv");
        reveal_strlit("minv");
        reveal_strlit("or");
        reveal_strlit("r");
        reveal_strlit("sgt");
        reveal_strlit("slt");
    }
}

/// The text of `checked_sadd` is that of the function that it stands for.
pub proof fn lemma_checked_sadd_text(rich: bool)
    ensures
        checked_sadd_src(rich) == fn_text(checked_sadd_fn(rich)) + "\n"@,
{
    let l = checked_sadd_src(rich);
    let l0 = "function checked_sadd(a, b, minv, maxv) -> r {\n    r := add(a, b)\n    if slt(and(xor(a, r), xor(b, r)), 0) { "@;
    assert(l0.len() == 109) by {
        reveal_strlit("function checked_sadd(a, b, minv, maxv) -> r {\n    r := add(a, b)\n    if slt(and(xor(a, r), xor(b, r)), 0) { ");
    }
    let q1: int = 109;
    let p1 = panic_spec(rich, PANIC_OVERFLOW@);
    let q2: int = q1 + p1.len();
    let l2 = " }\n    if or(slt(r, minv), sgt(r, maxv)) { "@;
    assert(l2.len() == 43) by {
        reveal_strlit(" }\n    if or(slt(r, minv), sgt(r, maxv)) { ");
    }
    let q3: int = q2 + 43;
    let p3 = panic_spec(rich, PANIC_OVERFLOW@);
    let q4: int = q3 + p3.len();
    let l4 = " }\n}\n"@;
    assert(l4.len() == 5) by {
        reveal_strlit(" }\n}\n");
    }
    assert(at(l, 0, (0 + l0.len()) as int, l0)) by {
        assert(l.subrange(0, (0 + l0.len()) as int) =~= l0);
    }
    assert(at(l, q1, (q1 + p1.len()) as int, p1)) by {
        assert(l.subrange(q1, (q1 + p1.len()) as int) =~= p1);
    }
    assert(at(l, q2, (q2 + l2.len()) as int, l2)) by {
        assert(l.subrange(q2, (q2 + l2.len()) as int) =~= l2);
    }
    assert(at(l, q3, (q3 + p3.len()) as int, p3)) by {
        assert(l.subrange(q3, (q3 + p3.len()) as int) =~= p3);
    }
    assert(at(l, q4, (q4 + l4.len()) as int, l4)) by {
        assert(l.subrange(q4, (q4 + l4.len()) as int) =~= l4);
    }
    lemma_checked_sadd_cuts();
    lemma_checked_sadd_pieces(rich);
    lemma_at_inside(l, 0, l0, 0, 46, "function checked_sadd(a, b, minv, maxv) -> r {"@);
    let f0 = checked_sadd_fn(rich);
    lemma_at_nothing(l, 46);
    let k1 = none();
    let s2 = YulStmt::Put("r"@, op2(Op::Add, var("a"@), var("b"@)));
    lemma_at_inside(l, 0, l0, 51, 65, "r := add(a, b)"@);
    lemma_at_inside(l, 0, l0, 46, 51, "\n    "@);
    lemma_at_line(l, 46, 46, 51, 65, k1, "\n    "@, s2);
    let k3 = line(k1, "\n    "@, s2);
    lemma_at_inside(l, 0, l0, 70, 108, "if slt(and(xor(a, r), xor(b, r)), 0) {"@);
    let c4 = op2(Op::Slt, op2(Op::And, op2(Op::Xor, var("a"@), var("r"@)), op2(Op::Xor, var("b"@), var("r"@))), num("0"@));
    lemma_at_inside(l, 0, l0, 108, 109, " "@);
    lemma_at_inside(l, q2, l2, 0, 1, " "@);
    lemma_panic_at(l, 108, 109, q2 + 0, rich, PANIC_OVERFLOW@);
    let b5 = panic_code(rich, PANIC_OVERFLOW@);
    lemma_at_inside(l, q2, l2, 1, 2, "}"@);
    let s6 = YulStmt::If(c4, b5);
    lemma_at_if(l, 70, 108, q2 + 0, q2 + 1, c4, b5);
    lemma_at_inside(l, 0, l0, 65, 70, "\n    "@);
    lemma_at_line(l, 46, 65, 70, q2 + 2, k3, "\n    "@, s6);
    let k7 = line(k3, "\n    "@, s6);
    lemma_at_inside(l, q2, l2, 7, 42, "if or(slt(r, minv), sgt(r, maxv)) {"@);
    let c8 = op2(Op::Or, op2(Op::Slt, var("r"@), var("minv"@)), op2(Op::Sgt, var("r"@), var("maxv"@)));
    lemma_at_inside(l, q2, l2, 42, 43, " "@);
    lemma_at_inside(l, q4, l4, 0, 1, " "@);
    lemma_panic_at(l, q2 + 42, q2 + 43, q4 + 0, rich, PANIC_OVERFLOW@);
    let b9 = panic_code(rich, PANIC_OVERFLOW@);
    lemma_at_inside(l, q4, l4, 1, 2, "}"@);
    let s10 = YulStmt::If(c8, b9);
    lemma_at_if(l, q2 + 7, q2 + 42, q4 + 0, q4 + 1, c8, b9);
    lemma_at_inside(l, q2, l2, 2, 7, "\n    "@);
    lemma_at_line(l, 46, q2 + 2, q2 + 7, q4 + 2, k7, "\n    "@, s10);
    let k11 = line(k7, "\n    "@, s10);
    lemma_at_inside(l, q4, l4, 2, 3, "\n"@);
    let k12 = tail(k11, "\n"@);
    lemma_at_inside(l, q4, l4, 3, 4, "}"@);
    assert(f0.body == k12);
    lemma_at_fn(l, 0, 46, q4 + 2, q4 + 3, f0);
    lemma_at_inside(l, q4, l4, 4, 5, "\n"@);
    lemma_at_add(l, 0, q4 + 4, q4 + 5, fn_text(f0), "\n"@);
    lemma_at_whole(l, fn_text(f0) + "\n"@);
}

pub open spec fn checked_ssub_fn(rich: bool) -> YulFn {
    YulFn {
        name: "checked_ssub"@,
        params: seq!["a"@, "b"@],
        rets: seq!["r"@],
        body: tail(line(line(none(), "\n    "@, YulStmt::Put("r"@, op2(Op::Sub, var("a"@), var("b"@)))), "\n    "@, YulStmt::If(op2(Op::Slt, op2(Op::And, op2(Op::Xor, var("a"@), var("b"@)), op2(Op::Xor, var("a"@), var("r"@))), num("0"@)), panic_code(rich, PANIC_OVERFLOW@))), "\n"@),
    }
}

proof fn lemma_checked_ssub_cuts()
    ensures
        at("function checked_ssub(a, b) -> r {\n    r := sub(a, b)\n    if slt(and(xor(a, b), xor(a, r)), 0) { "@, 0, 34, "function checked_ssub(a, b) -> r {"@),
        at("function checked_ssub(a, b) -> r {\n    r := sub(a, b)\n    if slt(and(xor(a, b), xor(a, r)), 0) { "@, 39, 53, "r := sub(a, b)"@),
        at("function checked_ssub(a, b) -> r {\n    r := sub(a, b)\n    if slt(and(xor(a, b), xor(a, r)), 0) { "@, 34, 39, "\n    "@),
        at("function checked_ssub(a, b) -> r {\n    r := sub(a, b)\n    if slt(and(xor(a, b), xor(a, r)), 0) { "@, 58, 96, "if slt(and(xor(a, b), xor(a, r)), 0) {"@),
        at("function checked_ssub(a, b) -> r {\n    r := sub(a, b)\n    if slt(and(xor(a, b), xor(a, r)), 0) { "@, 96, 97, " "@),
        at(" }\n}\n"@, 0, 1, " "@),
        at(" }\n}\n"@, 1, 2, "}"@),
        at("function checked_ssub(a, b) -> r {\n    r := sub(a, b)\n    if slt(and(xor(a, b), xor(a, r)), 0) { "@, 53, 58, "\n    "@),
        at(" }\n}\n"@, 2, 3, "\n"@),
        at(" }\n}\n"@, 3, 4, "}"@),
        at(" }\n}\n"@, 4, 5, "\n"@),
{
    let l0 = "function checked_ssub(a, b) -> r {\n    r := sub(a, b)\n    if slt(and(xor(a, b), xor(a, r)), 0) { "@;
    reveal_strlit("function checked_ssub(a, b) -> r {\n    r := sub(a, b)\n    if slt(and(xor(a, b), xor(a, r)), 0) { ");
    let l1 = " }\n}\n"@;
    reveal_strlit(" }\n}\n");
    reveal_strlit("function checked_ssub(a, b) -> r {");
    reveal_strlit("r := sub(a, b)");
    reveal_strlit("\n    ");
    reveal_strlit("if slt(and(xor(a, b), xor(a, r)), 0) {");
    reveal_strlit(" ");
    reveal_strlit("}");
    reveal_strlit("\n");
    assert(l0.subrange(0, 34) =~= "function checked_ssub(a, b) -> r {"@);
    assert(l0.subrange(39, 53) =~= "r := sub(a, b)"@);
    assert(l0.subrange(34, 39) =~= "\n    "@);
    assert(l0.subrange(58, 96) =~= "if slt(and(xor(a, b), xor(a, r)), 0) {"@);
    assert(l0.subrange(96, 97) =~= " "@);
    assert(l1.subrange(0, 1) =~= " "@);
    assert(l1.subrange(1, 2) =~= "}"@);
    assert(l0.subrange(53, 58) =~= "\n    "@);
    assert(l1.subrange(2, 3) =~= "\n"@);
    assert(l1.subrange(3, 4) =~= "}"@);
    assert(l1.subrange(4, 5) =~= "\n"@);
}

proof fn lemma_checked_ssub_pieces(rich: bool)
    ensures
        fn_head(checked_ssub_fn(rich)) == "function checked_ssub(a, b) -> r {"@,
        stmt_text(YulStmt::Put("r"@, op2(Op::Sub, var("a"@), var("b"@)))) == "r := sub(a, b)"@,
        "if "@ + expr_text(op2(Op::Slt, op2(Op::And, op2(Op::Xor, var("a"@), var("b"@)), op2(Op::Xor, var("a"@), var("r"@))), num("0"@))) + " {"@ == "if slt(and(xor(a, b), xor(a, r)), 0) {"@,
{
    lemma_joined("a"@, "b"@, Seq::empty(), Seq::empty(), Seq::empty());
    lemma_joined("r"@, Seq::empty(), Seq::empty(), Seq::empty(), Seq::empty());
    assert(fn_head(checked_ssub_fn(rich)) =~= "function checked_ssub(a, b) -> r {"@) by {
        broadcast use group_texts;

        reveal_strlit(" -> ");
        reveal_strlit(" {");
        reveal_strlit("(");
        reveal_strlit(")");
        reveal_strlit(", ");
        reveal_strlit("a");
        reveal_strlit("b");
        reveal_strlit("checked_ssub");
        reveal_strlit("function ");
        reveal_strlit("function checked_ssub(a, b) -> r {");
        reveal_strlit("r");
    }
    assert(stmt_text(YulStmt::Put("r"@, op2(Op::Sub, var("a"@), var("b"@)))) =~= "r := sub(a, b)"@) by {
        broadcast use group_texts;

        reveal_strlit(" := ");
        reveal_strlit("(");
        reveal_strlit(")");
        reveal_strlit(", ");
        reveal_strlit("a");
        reveal_strlit("b");
        reveal_strlit("r");
        reveal_strlit("r := sub(a, b)");
        reveal_strlit("sub");
    }
    assert("if "@ + expr_text(op2(Op::Slt, op2(Op::And, op2(Op::Xor, var("a"@), var("b"@)), op2(Op::Xor, var("a"@), var("r"@))), num("0"@))) + " {"@ =~= "if slt(and(xor(a, b), xor(a, r)), 0) {"@) by {
        broadcast use group_texts;

        reveal_strlit(" {");
        reveal_strlit("(");
        reveal_strlit(")");
        reveal_strlit(", ");
        reveal_strlit("0");
        reveal_strlit("a");
        reveal_strlit("and");
        reveal_strlit("b");
        reveal_strlit("if ");
        reveal_strlit("if slt(and(xor(a, b), xor(a, r)), 0) {");
        reveal_strlit("r");
        reveal_strlit("slt");
        reveal_strlit("xor");
    }
}

/// The text of `checked_ssub` is that of the function that it stands for.
pub proof fn lemma_checked_ssub_text(rich: bool)
    ensures
        checked_ssub_src(rich) == fn_text(checked_ssub_fn(rich)) + "\n"@,
{
    let l = checked_ssub_src(rich);
    let l0 = "function checked_ssub(a, b) -> r {\n    r := sub(a, b)\n    if slt(and(xor(a, b), xor(a, r)), 0) { "@;
    assert(l0.len() == 97) by {
        reveal_strlit("function checked_ssub(a, b) -> r {\n    r := sub(a, b)\n    if slt(and(xor(a, b), xor(a, r)), 0) { ");
    }
    let q1: int = 97;
    let p1 = panic_spec(rich, PANIC_OVERFLOW@);
    let q2: int = q1 + p1.len();
    let l2 = " }\n}\n"@;
    assert(l2.len() == 5) by {
        reveal_strlit(" }\n}\n");
    }
    assert(at(l, 0, (0 + l0.len()) as int, l0)) by {
        assert(l.subrange(0, (0 + l0.len()) as int) =~= l0);
    }
    assert(at(l, q1, (q1 + p1.len()) as int, p1)) by {
        assert(l.subrange(q1, (q1 + p1.len()) as int) =~= p1);
    }
    assert(at(l, q2, (q2 + l2.len()) as int, l2)) by {
        assert(l.subrange(q2, (q2 + l2.len()) as int) =~= l2);
    }
    lemma_checked_ssub_cuts();
    lemma_checked_ssub_pieces(rich);
    lemma_at_inside(l, 0, l0, 0, 34, "function checked_ssub(a, b) -> r {"@);
    let f0 = checked_ssub_fn(rich);
    lemma_at_nothing(l, 34);
    let k1 = none();
    let s2 = YulStmt::Put("r"@, op2(Op::Sub, var("a"@), var("b"@)));
    lemma_at_inside(l, 0, l0, 39, 53, "r := sub(a, b)"@);
    lemma_at_inside(l, 0, l0, 34, 39, "\n    "@);
    lemma_at_line(l, 34, 34, 39, 53, k1, "\n    "@, s2);
    let k3 = line(k1, "\n    "@, s2);
    lemma_at_inside(l, 0, l0, 58, 96, "if slt(and(xor(a, b), xor(a, r)), 0) {"@);
    let c4 = op2(Op::Slt, op2(Op::And, op2(Op::Xor, var("a"@), var("b"@)), op2(Op::Xor, var("a"@), var("r"@))), num("0"@));
    lemma_at_inside(l, 0, l0, 96, 97, " "@);
    lemma_at_inside(l, q2, l2, 0, 1, " "@);
    lemma_panic_at(l, 96, 97, q2 + 0, rich, PANIC_OVERFLOW@);
    let b5 = panic_code(rich, PANIC_OVERFLOW@);
    lemma_at_inside(l, q2, l2, 1, 2, "}"@);
    let s6 = YulStmt::If(c4, b5);
    lemma_at_if(l, 58, 96, q2 + 0, q2 + 1, c4, b5);
    lemma_at_inside(l, 0, l0, 53, 58, "\n    "@);
    lemma_at_line(l, 34, 53, 58, q2 + 2, k3, "\n    "@, s6);
    let k7 = line(k3, "\n    "@, s6);
    lemma_at_inside(l, q2, l2, 2, 3, "\n"@);
    let k8 = tail(k7, "\n"@);
    lemma_at_inside(l, q2, l2, 3, 4, "}"@);
    assert(f0.body == k8);
    lemma_at_fn(l, 0, 34, q2 + 2, q2 + 3, f0);
    lemma_at_inside(l, q2, l2, 4, 5, "\n"@);
    lemma_at_add(l, 0, q2 + 4, q2 + 5, fn_text(f0), "\n"@);
    lemma_at_whole(l, fn_text(f0) + "\n"@);
}

pub open spec fn checked_ssub_n_fn(rich: bool) -> YulFn {
    YulFn {
        name: "checked_ssub_n"@,
        params: seq!["a"@, "b"@, "minv"@, "maxv"@],
        rets: seq!["r"@],
        body: tail(line(line(none(), "\n    "@, YulStmt::Put("r"@, own2("checked_ssub"@, var("a"@), var("b"@)))), "\n    "@, YulStmt::If(op2(Op::Or, op2(Op::Slt, var("r"@), var("minv"@)), op2(Op::Sgt, var("r"@), var("maxv"@))), panic_code(rich, PANIC_OVERFLOW@))), "\n"@),
    }
}

proof fn lemma_checked_ssub_n_cuts()
    ensures
        at("function checked_ssub_n(a, b, minv, maxv) -> r {\n    r := checked_ssub(a, b)\n    if or(slt(r, minv), sgt(r, maxv)) { "@, 0, 48, "function checked_ssub_n(a, b, minv, maxv) -> r {"@),
        at("function checked_ssub_n(a, b, minv, maxv) -> r {\n    r := checked_ssub(a, b)\n    if or(slt(r, minv), sgt(r, maxv)) { "@, 53, 76, "r := checked_ssub(a, b)"@),
        at("function checked_ssub_n(a, b, minv, maxv) -> r {\n    r := checked_ssub(a, b)\n    if or(slt(r, minv), sgt(r, maxv)) { "@, 48, 53, "\n    "@),
        at("function checked_ssub_n(a, b, minv, maxv) -> r {\n    r := checked_ssub(a, b)\n    if or(slt(r, minv), sgt(r, maxv)) { "@, 81, 116, "if or(slt(r, minv), sgt(r, maxv)) {"@),
        at("function checked_ssub_n(a, b, minv, maxv) -> r {\n    r := checked_ssub(a, b)\n    if or(slt(r, minv), sgt(r, maxv)) { "@, 116, 117, " "@),
        at(" }\n}\n"@, 0, 1, " "@),
        at(" }\n}\n"@, 1, 2, "}"@),
        at("function checked_ssub_n(a, b, minv, maxv) -> r {\n    r := checked_ssub(a, b)\n    if or(slt(r, minv), sgt(r, maxv)) { "@, 76, 81, "\n    "@),
        at(" }\n}\n"@, 2, 3, "\n"@),
        at(" }\n}\n"@, 3, 4, "}"@),
        at(" }\n}\n"@, 4, 5, "\n"@),
{
    let l0 = "function checked_ssub_n(a, b, minv, maxv) -> r {\n    r := checked_ssub(a, b)\n    if or(slt(r, minv), sgt(r, maxv)) { "@;
    reveal_strlit("function checked_ssub_n(a, b, minv, maxv) -> r {\n    r := checked_ssub(a, b)\n    if or(slt(r, minv), sgt(r, maxv)) { ");
    let l1 = " }\n}\n"@;
    reveal_strlit(" }\n}\n");
    reveal_strlit("function checked_ssub_n(a, b, minv, maxv) -> r {");
    reveal_strlit("r := checked_ssub(a, b)");
    reveal_strlit("\n    ");
    reveal_strlit("if or(slt(r, minv), sgt(r, maxv)) {");
    reveal_strlit(" ");
    reveal_strlit("}");
    reveal_strlit("\n");
    assert(l0.subrange(0, 48) =~= "function checked_ssub_n(a, b, minv, maxv) -> r {"@);
    assert(l0.subrange(53, 76) =~= "r := checked_ssub(a, b)"@);
    assert(l0.subrange(48, 53) =~= "\n    "@);
    assert(l0.subrange(81, 116) =~= "if or(slt(r, minv), sgt(r, maxv)) {"@);
    assert(l0.subrange(116, 117) =~= " "@);
    assert(l1.subrange(0, 1) =~= " "@);
    assert(l1.subrange(1, 2) =~= "}"@);
    assert(l0.subrange(76, 81) =~= "\n    "@);
    assert(l1.subrange(2, 3) =~= "\n"@);
    assert(l1.subrange(3, 4) =~= "}"@);
    assert(l1.subrange(4, 5) =~= "\n"@);
}

proof fn lemma_checked_ssub_n_pieces(rich: bool)
    ensures
        fn_head(checked_ssub_n_fn(rich)) == "function checked_ssub_n(a, b, minv, maxv) -> r {"@,
        stmt_text(YulStmt::Put("r"@, own2("checked_ssub"@, var("a"@), var("b"@)))) == "r := checked_ssub(a, b)"@,
        "if "@ + expr_text(op2(Op::Or, op2(Op::Slt, var("r"@), var("minv"@)), op2(Op::Sgt, var("r"@), var("maxv"@)))) + " {"@ == "if or(slt(r, minv), sgt(r, maxv)) {"@,
{
    lemma_joined("a"@, "b"@, "minv"@, "maxv"@, Seq::empty());
    lemma_joined("r"@, Seq::empty(), Seq::empty(), Seq::empty(), Seq::empty());
    assert(fn_head(checked_ssub_n_fn(rich)) =~= "function checked_ssub_n(a, b, minv, maxv) -> r {"@) by {
        broadcast use group_texts;

        reveal_strlit(" -> ");
        reveal_strlit(" {");
        reveal_strlit("(");
        reveal_strlit(")");
        reveal_strlit(", ");
        reveal_strlit("a");
        reveal_strlit("b");
        reveal_strlit("checked_ssub_n");
        reveal_strlit("function ");
        reveal_strlit("function checked_ssub_n(a, b, minv, maxv) -> r {");
        reveal_strlit("maxv");
        reveal_strlit("minv");
        reveal_strlit("r");
    }
    assert(stmt_text(YulStmt::Put("r"@, own2("checked_ssub"@, var("a"@), var("b"@)))) =~= "r := checked_ssub(a, b)"@) by {
        broadcast use group_texts;

        reveal_strlit(" := ");
        reveal_strlit("(");
        reveal_strlit(")");
        reveal_strlit(", ");
        reveal_strlit("a");
        reveal_strlit("b");
        reveal_strlit("checked_ssub");
        reveal_strlit("r");
        reveal_strlit("r := checked_ssub(a, b)");
    }
    assert("if "@ + expr_text(op2(Op::Or, op2(Op::Slt, var("r"@), var("minv"@)), op2(Op::Sgt, var("r"@), var("maxv"@)))) + " {"@ =~= "if or(slt(r, minv), sgt(r, maxv)) {"@) by {
        broadcast use group_texts;

        reveal_strlit(" {");
        reveal_strlit("(");
        reveal_strlit(")");
        reveal_strlit(", ");
        reveal_strlit("if ");
        reveal_strlit("if or(slt(r, minv), sgt(r, maxv)) {");
        reveal_strlit("maxv");
        reveal_strlit("minv");
        reveal_strlit("or");
        reveal_strlit("r");
        reveal_strlit("sgt");
        reveal_strlit("slt");
    }
}

/// The text of `checked_ssub_n` is that of the function that it stands for.
pub proof fn lemma_checked_ssub_n_text(rich: bool)
    ensures
        checked_ssub_n_src(rich) == fn_text(checked_ssub_n_fn(rich)) + "\n"@,
{
    let l = checked_ssub_n_src(rich);
    let l0 = "function checked_ssub_n(a, b, minv, maxv) -> r {\n    r := checked_ssub(a, b)\n    if or(slt(r, minv), sgt(r, maxv)) { "@;
    assert(l0.len() == 117) by {
        reveal_strlit("function checked_ssub_n(a, b, minv, maxv) -> r {\n    r := checked_ssub(a, b)\n    if or(slt(r, minv), sgt(r, maxv)) { ");
    }
    let q1: int = 117;
    let p1 = panic_spec(rich, PANIC_OVERFLOW@);
    let q2: int = q1 + p1.len();
    let l2 = " }\n}\n"@;
    assert(l2.len() == 5) by {
        reveal_strlit(" }\n}\n");
    }
    assert(at(l, 0, (0 + l0.len()) as int, l0)) by {
        assert(l.subrange(0, (0 + l0.len()) as int) =~= l0);
    }
    assert(at(l, q1, (q1 + p1.len()) as int, p1)) by {
        assert(l.subrange(q1, (q1 + p1.len()) as int) =~= p1);
    }
    assert(at(l, q2, (q2 + l2.len()) as int, l2)) by {
        assert(l.subrange(q2, (q2 + l2.len()) as int) =~= l2);
    }
    lemma_checked_ssub_n_cuts();
    lemma_checked_ssub_n_pieces(rich);
    lemma_at_inside(l, 0, l0, 0, 48, "function checked_ssub_n(a, b, minv, maxv) -> r {"@);
    let f0 = checked_ssub_n_fn(rich);
    lemma_at_nothing(l, 48);
    let k1 = none();
    let s2 = YulStmt::Put("r"@, own2("checked_ssub"@, var("a"@), var("b"@)));
    lemma_at_inside(l, 0, l0, 53, 76, "r := checked_ssub(a, b)"@);
    lemma_at_inside(l, 0, l0, 48, 53, "\n    "@);
    lemma_at_line(l, 48, 48, 53, 76, k1, "\n    "@, s2);
    let k3 = line(k1, "\n    "@, s2);
    lemma_at_inside(l, 0, l0, 81, 116, "if or(slt(r, minv), sgt(r, maxv)) {"@);
    let c4 = op2(Op::Or, op2(Op::Slt, var("r"@), var("minv"@)), op2(Op::Sgt, var("r"@), var("maxv"@)));
    lemma_at_inside(l, 0, l0, 116, 117, " "@);
    lemma_at_inside(l, q2, l2, 0, 1, " "@);
    lemma_panic_at(l, 116, 117, q2 + 0, rich, PANIC_OVERFLOW@);
    let b5 = panic_code(rich, PANIC_OVERFLOW@);
    lemma_at_inside(l, q2, l2, 1, 2, "}"@);
    let s6 = YulStmt::If(c4, b5);
    lemma_at_if(l, 81, 116, q2 + 0, q2 + 1, c4, b5);
    lemma_at_inside(l, 0, l0, 76, 81, "\n    "@);
    lemma_at_line(l, 48, 76, 81, q2 + 2, k3, "\n    "@, s6);
    let k7 = line(k3, "\n    "@, s6);
    lemma_at_inside(l, q2, l2, 2, 3, "\n"@);
    let k8 = tail(k7, "\n"@);
    lemma_at_inside(l, q2, l2, 3, 4, "}"@);
    assert(f0.body == k8);
    lemma_at_fn(l, 0, 48, q2 + 2, q2 + 3, f0);
    lemma_at_inside(l, q2, l2, 4, 5, "\n"@);
    lemma_at_add(l, 0, q2 + 4, q2 + 5, fn_text(f0), "\n"@);
    lemma_at_whole(l, fn_text(f0) + "\n"@);
}

pub open spec fn checked_div_fn(rich: bool) -> YulFn {
    YulFn {
        name: "checked_div"@,
        params: seq!["a"@, "b"@],
        rets: seq!["r"@],
        body: tail(line(line(none(), "\n    "@, YulStmt::If(op1(Op::Iszero, var("b"@)), panic_code(rich, PANIC_DIV_ZERO@))), "\n    "@, YulStmt::Put("r"@, op2(Op::Div, var("a"@), var("b"@)))), "\n"@),
    }
}

proof fn lemma_checked_div_cuts()
    ensures
        at("function checked_div(a, b) -> r {\n    if iszero(b) { "@, 0, 33, "function checked_div(a, b) -> r {"@),
        at("function checked_div(a, b) -> r {\n    if iszero(b) { "@, 38, 52, "if iszero(b) {"@),
        at("function checked_div(a, b) -> r {\n    if iszero(b) { "@, 52, 53, " "@),
        at(" }\n    r := div(a, b)\n}\n"@, 0, 1, " "@),
        at(" }\n    r := div(a, b)\n}\n"@, 1, 2, "}"@),
        at("function checked_div(a, b) -> r {\n    if iszero(b) { "@, 33, 38, "\n    "@),
        at(" }\n    r := div(a, b)\n}\n"@, 7, 21, "r := div(a, b)"@),
        at(" }\n    r := div(a, b)\n}\n"@, 2, 7, "\n    "@),
        at(" }\n    r := div(a, b)\n}\n"@, 21, 22, "\n"@),
        at(" }\n    r := div(a, b)\n}\n"@, 22, 23, "}"@),
        at(" }\n    r := div(a, b)\n}\n"@, 23, 24, "\n"@),
{
    let l0 = "function checked_div(a, b) -> r {\n    if iszero(b) { "@;
    reveal_strlit("function checked_div(a, b) -> r {\n    if iszero(b) { ");
    let l1 = " }\n    r := div(a, b)\n}\n"@;
    reveal_strlit(" }\n    r := div(a, b)\n}\n");
    reveal_strlit("function checked_div(a, b) -> r {");
    reveal_strlit("if iszero(b) {");
    reveal_strlit(" ");
    reveal_strlit("}");
    reveal_strlit("\n    ");
    reveal_strlit("r := div(a, b)");
    reveal_strlit("\n");
    assert(l0.subrange(0, 33) =~= "function checked_div(a, b) -> r {"@);
    assert(l0.subrange(38, 52) =~= "if iszero(b) {"@);
    assert(l0.subrange(52, 53) =~= " "@);
    assert(l1.subrange(0, 1) =~= " "@);
    assert(l1.subrange(1, 2) =~= "}"@);
    assert(l0.subrange(33, 38) =~= "\n    "@);
    assert(l1.subrange(7, 21) =~= "r := div(a, b)"@);
    assert(l1.subrange(2, 7) =~= "\n    "@);
    assert(l1.subrange(21, 22) =~= "\n"@);
    assert(l1.subrange(22, 23) =~= "}"@);
    assert(l1.subrange(23, 24) =~= "\n"@);
}

proof fn lemma_checked_div_pieces(rich: bool)
    ensures
        fn_head(checked_div_fn(rich)) == "function checked_div(a, b) -> r {"@,
        "if "@ + expr_text(op1(Op::Iszero, var("b"@))) + " {"@ == "if iszero(b) {"@,
        stmt_text(YulStmt::Put("r"@, op2(Op::Div, var("a"@), var("b"@)))) == "r := div(a, b)"@,
{
    lemma_joined("a"@, "b"@, Seq::empty(), Seq::empty(), Seq::empty());
    lemma_joined("r"@, Seq::empty(), Seq::empty(), Seq::empty(), Seq::empty());
    assert(fn_head(checked_div_fn(rich)) =~= "function checked_div(a, b) -> r {"@) by {
        broadcast use group_texts;

        reveal_strlit(" -> ");
        reveal_strlit(" {");
        reveal_strlit("(");
        reveal_strlit(")");
        reveal_strlit(", ");
        reveal_strlit("a");
        reveal_strlit("b");
        reveal_strlit("checked_div");
        reveal_strlit("function ");
        reveal_strlit("function checked_div(a, b) -> r {");
        reveal_strlit("r");
    }
    assert("if "@ + expr_text(op1(Op::Iszero, var("b"@))) + " {"@ =~= "if iszero(b) {"@) by {
        broadcast use group_texts;

        reveal_strlit(" {");
        reveal_strlit("(");
        reveal_strlit(")");
        reveal_strlit("b");
        reveal_strlit("if ");
        reveal_strlit("if iszero(b) {");
        reveal_strlit("iszero");
    }
    assert(stmt_text(YulStmt::Put("r"@, op2(Op::Div, var("a"@), var("b"@)))) =~= "r := div(a, b)"@) by {
        broadcast use group_texts;

        reveal_strlit(" := ");
        reveal_strlit("(");
        reveal_strlit(")");
        reveal_strlit(", ");
        reveal_strlit("a");
        reveal_strlit("b");
        reveal_strlit("div");
        reveal_strlit("r");
        reveal_strlit("r := div(a, b)");
    }
}

/// The text of `checked_div` is that of the function that it stands for.
pub proof fn lemma_checked_div_text(rich: bool)
    ensures
        checked_div_src(rich) == fn_text(checked_div_fn(rich)) + "\n"@,
{
    let l = checked_div_src(rich);
    let l0 = "function checked_div(a, b) -> r {\n    if iszero(b) { "@;
    assert(l0.len() == 53) by {
        reveal_strlit("function checked_div(a, b) -> r {\n    if iszero(b) { ");
    }
    let q1: int = 53;
    let p1 = panic_spec(rich, PANIC_DIV_ZERO@);
    let q2: int = q1 + p1.len();
    let l2 = " }\n    r := div(a, b)\n}\n"@;
    assert(l2.len() == 24) by {
        reveal_strlit(" }\n    r := div(a, b)\n}\n");
    }
    assert(at(l, 0, (0 + l0.len()) as int, l0)) by {
        assert(l.subrange(0, (0 + l0.len()) as int) =~= l0);
    }
    assert(at(l, q1, (q1 + p1.len()) as int, p1)) by {
        assert(l.subrange(q1, (q1 + p1.len()) as int) =~= p1);
    }
    assert(at(l, q2, (q2 + l2.len()) as int, l2)) by {
        assert(l.subrange(q2, (q2 + l2.len()) as int) =~= l2);
    }
    lemma_checked_div_cuts();
    lemma_checked_div_pieces(rich);
    lemma_at_inside(l, 0, l0, 0, 33, "function checked_div(a, b) -> r {"@);
    let f0 = checked_div_fn(rich);
    lemma_at_nothing(l, 33);
    let k1 = none();
    lemma_at_inside(l, 0, l0, 38, 52, "if iszero(b) {"@);
    let c2 = op1(Op::Iszero, var("b"@));
    lemma_at_inside(l, 0, l0, 52, 53, " "@);
    lemma_at_inside(l, q2, l2, 0, 1, " "@);
    lemma_panic_at(l, 52, 53, q2 + 0, rich, PANIC_DIV_ZERO@);
    let b3 = panic_code(rich, PANIC_DIV_ZERO@);
    lemma_at_inside(l, q2, l2, 1, 2, "}"@);
    let s4 = YulStmt::If(c2, b3);
    lemma_at_if(l, 38, 52, q2 + 0, q2 + 1, c2, b3);
    lemma_at_inside(l, 0, l0, 33, 38, "\n    "@);
    lemma_at_line(l, 33, 33, 38, q2 + 2, k1, "\n    "@, s4);
    let k5 = line(k1, "\n    "@, s4);
    let s6 = YulStmt::Put("r"@, op2(Op::Div, var("a"@), var("b"@)));
    lemma_at_inside(l, q2, l2, 7, 21, "r := div(a, b)"@);
    lemma_at_inside(l, q2, l2, 2, 7, "\n    "@);
    lemma_at_line(l, 33, q2 + 2, q2 + 7, q2 + 21, k5, "\n    "@, s6);
    let k7 = line(k5, "\n    "@, s6);
    lemma_at_inside(l, q2, l2, 21, 22, "\n"@);
    let k8 = tail(k7, "\n"@);
    lemma_at_inside(l, q2, l2, 22, 23, "}"@);
    assert(f0.body == k8);
    lemma_at_fn(l, 0, 33, q2 + 21, q2 + 22, f0);
    lemma_at_inside(l, q2, l2, 23, 24, "\n"@);
    lemma_at_add(l, 0, q2 + 23, q2 + 24, fn_text(f0), "\n"@);
    lemma_at_whole(l, fn_text(f0) + "\n"@);
}

pub open spec fn checked_sdiv_fn(rich: bool) -> YulFn {
    YulFn {
        name: "checked_sdiv"@,
        params: seq!["a"@, "b"@],
        rets: seq!["r"@],
        body: tail(line(line(none(), "\n    "@, YulStmt::If(op1(Op::Iszero, var("b"@)), panic_code(rich, PANIC_DIV_ZERO@))), "\n    "@, YulStmt::Put("r"@, op2(Op::Sdiv, var("a"@), var("b"@)))), "\n"@),
    }
}

proof fn lemma_checked_sdiv_cuts()
    ensures
        at("function checked_sdiv(a, b) -> r {\n    if iszero(b) { "@, 0, 34, "function checked_sdiv(a, b) -> r {"@),
        at("function checked_sdiv(a, b) -> r {\n    if iszero(b) { "@, 39, 53, "if iszero(b) {"@),
        at("function checked_sdiv(a, b) -> r {\n    if iszero(b) { "@, 53, 54, " "@),
        at(" }\n    r := sdiv(a, b)\n}\n"@, 0, 1, " "@),
        at(" }\n    r := sdiv(a, b)\n}\n"@, 1, 2, "}"@),
        at("function checked_sdiv(a, b) -> r {\n    if iszero(b) { "@, 34, 39, "\n    "@),
        at(" }\n    r := sdiv(a, b)\n}\n"@, 7, 22, "r := sdiv(a, b)"@),
        at(" }\n    r := sdiv(a, b)\n}\n"@, 2, 7, "\n    "@),
        at(" }\n    r := sdiv(a, b)\n}\n"@, 22, 23, "\n"@),
        at(" }\n    r := sdiv(a, b)\n}\n"@, 23, 24, "}"@),
        at(" }\n    r := sdiv(a, b)\n}\n"@, 24, 25, "\n"@),
{
    let l0 = "function checked_sdiv(a, b) -> r {\n    if iszero(b) { "@;
    reveal_strlit("function checked_sdiv(a, b) -> r {\n    if iszero(b) { ");
    let l1 = " }\n    r := sdiv(a, b)\n}\n"@;
    reveal_strlit(" }\n    r := sdiv(a, b)\n}\n");
    reveal_strlit("function checked_sdiv(a, b) -> r {");
    reveal_strlit("if iszero(b) {");
    reveal_strlit(" ");
    reveal_strlit("}");
    reveal_strlit("\n    ");
    reveal_strlit("r := sdiv(a, b)");
    reveal_strlit("\n");
    assert(l0.subrange(0, 34) =~= "function checked_sdiv(a, b) -> r {"@);
    assert(l0.subrange(39, 53) =~= "if iszero(b) {"@);
    assert(l0.subrange(53, 54) =~= " "@);
    assert(l1.subrange(0, 1) =~= " "@);
    assert(l1.subrange(1, 2) =~= "}"@);
    assert(l0.subrange(34, 39) =~= "\n    "@);
    assert(l1.subrange(7, 22) =~= "r := sdiv(a, b)"@);
    assert(l1.subrange(2, 7) =~= "\n    "@);
    assert(l1.subrange(22, 23) =~= "\n"@);
    assert(l1.subrange(23, 24) =~= "}"@);
    assert(l1.subrange(24, 25) =~= "\n"@);
}

proof fn lemma_checked_sdiv_pieces(rich: bool)
    ensures
        fn_head(checked_sdiv_fn(rich)) == "function checked_sdiv(a, b) -> r {"@,
        "if "@ + expr_text(op1(Op::Iszero, var("b"@))) + " {"@ == "if iszero(b) {"@,
        stmt_text(YulStmt::Put("r"@, op2(Op::Sdiv, var("a"@), var("b"@)))) == "r := sdiv(a, b)"@,
{
    lemma_joined("a"@, "b"@, Seq::empty(), Seq::empty(), Seq::empty());
    lemma_joined("r"@, Seq::empty(), Seq::empty(), Seq::empty(), Seq::empty());
    assert(fn_head(checked_sdiv_fn(rich)) =~= "function checked_sdiv(a, b) -> r {"@) by {
        broadcast use group_texts;

        reveal_strlit(" -> ");
        reveal_strlit(" {");
        reveal_strlit("(");
        reveal_strlit(")");
        reveal_strlit(", ");
        reveal_strlit("a");
        reveal_strlit("b");
        reveal_strlit("checked_sdiv");
        reveal_strlit("function ");
        reveal_strlit("function checked_sdiv(a, b) -> r {");
        reveal_strlit("r");
    }
    assert("if "@ + expr_text(op1(Op::Iszero, var("b"@))) + " {"@ =~= "if iszero(b) {"@) by {
        broadcast use group_texts;

        reveal_strlit(" {");
        reveal_strlit("(");
        reveal_strlit(")");
        reveal_strlit("b");
        reveal_strlit("if ");
        reveal_strlit("if iszero(b) {");
        reveal_strlit("iszero");
    }
    assert(stmt_text(YulStmt::Put("r"@, op2(Op::Sdiv, var("a"@), var("b"@)))) =~= "r := sdiv(a, b)"@) by {
        broadcast use group_texts;

        reveal_strlit(" := ");
        reveal_strlit("(");
        reveal_strlit(")");
        reveal_strlit(", ");
        reveal_strlit("a");
        reveal_strlit("b");
        reveal_strlit("r");
        reveal_strlit("r := sdiv(a, b)");
        reveal_strlit("sdiv");
    }
}

/// The text of `checked_sdiv` is that of the function that it stands for.
pub proof fn lemma_checked_sdiv_text(rich: bool)
    ensures
        checked_sdiv_src(rich) == fn_text(checked_sdiv_fn(rich)) + "\n"@,
{
    let l = checked_sdiv_src(rich);
    let l0 = "function checked_sdiv(a, b) -> r {\n    if iszero(b) { "@;
    assert(l0.len() == 54) by {
        reveal_strlit("function checked_sdiv(a, b) -> r {\n    if iszero(b) { ");
    }
    let q1: int = 54;
    let p1 = panic_spec(rich, PANIC_DIV_ZERO@);
    let q2: int = q1 + p1.len();
    let l2 = " }\n    r := sdiv(a, b)\n}\n"@;
    assert(l2.len() == 25) by {
        reveal_strlit(" }\n    r := sdiv(a, b)\n}\n");
    }
    assert(at(l, 0, (0 + l0.len()) as int, l0)) by {
        assert(l.subrange(0, (0 + l0.len()) as int) =~= l0);
    }
    assert(at(l, q1, (q1 + p1.len()) as int, p1)) by {
        assert(l.subrange(q1, (q1 + p1.len()) as int) =~= p1);
    }
    assert(at(l, q2, (q2 + l2.len()) as int, l2)) by {
        assert(l.subrange(q2, (q2 + l2.len()) as int) =~= l2);
    }
    lemma_checked_sdiv_cuts();
    lemma_checked_sdiv_pieces(rich);
    lemma_at_inside(l, 0, l0, 0, 34, "function checked_sdiv(a, b) -> r {"@);
    let f0 = checked_sdiv_fn(rich);
    lemma_at_nothing(l, 34);
    let k1 = none();
    lemma_at_inside(l, 0, l0, 39, 53, "if iszero(b) {"@);
    let c2 = op1(Op::Iszero, var("b"@));
    lemma_at_inside(l, 0, l0, 53, 54, " "@);
    lemma_at_inside(l, q2, l2, 0, 1, " "@);
    lemma_panic_at(l, 53, 54, q2 + 0, rich, PANIC_DIV_ZERO@);
    let b3 = panic_code(rich, PANIC_DIV_ZERO@);
    lemma_at_inside(l, q2, l2, 1, 2, "}"@);
    let s4 = YulStmt::If(c2, b3);
    lemma_at_if(l, 39, 53, q2 + 0, q2 + 1, c2, b3);
    lemma_at_inside(l, 0, l0, 34, 39, "\n    "@);
    lemma_at_line(l, 34, 34, 39, q2 + 2, k1, "\n    "@, s4);
    let k5 = line(k1, "\n    "@, s4);
    let s6 = YulStmt::Put("r"@, op2(Op::Sdiv, var("a"@), var("b"@)));
    lemma_at_inside(l, q2, l2, 7, 22, "r := sdiv(a, b)"@);
    lemma_at_inside(l, q2, l2, 2, 7, "\n    "@);
    lemma_at_line(l, 34, q2 + 2, q2 + 7, q2 + 22, k5, "\n    "@, s6);
    let k7 = line(k5, "\n    "@, s6);
    lemma_at_inside(l, q2, l2, 22, 23, "\n"@);
    let k8 = tail(k7, "\n"@);
    lemma_at_inside(l, q2, l2, 23, 24, "}"@);
    assert(f0.body == k8);
    lemma_at_fn(l, 0, 34, q2 + 22, q2 + 23, f0);
    lemma_at_inside(l, q2, l2, 24, 25, "\n"@);
    lemma_at_add(l, 0, q2 + 24, q2 + 25, fn_text(f0), "\n"@);
    lemma_at_whole(l, fn_text(f0) + "\n"@);
}

pub open spec fn checked_mod_fn(rich: bool) -> YulFn {
    YulFn {
        name: "checked_mod"@,
        params: seq!["a"@, "b"@],
        rets: seq!["r"@],
        body: tail(line(line(none(), "\n    "@, YulStmt::If(op1(Op::Iszero, var("b"@)), panic_code(rich, PANIC_DIV_ZERO@))), "\n    "@, YulStmt::Put("r"@, op2(Op::Mod, var("a"@), var("b"@)))), "\n"@),
    }
}

proof fn lemma_checked_mod_cuts()
    ensures
        at("function checked_mod(a, b) -> r {\n    if iszero(b) { "@, 0, 33, "function checked_mod(a, b) -> r {"@),
        at("function checked_mod(a, b) -> r {\n    if iszero(b) { "@, 38, 52, "if iszero(b) {"@),
        at("function checked_mod(a, b) -> r {\n    if iszero(b) { "@, 52, 53, " "@),
        at(" }\n    r := mod(a, b)\n}\n"@, 0, 1, " "@),
        at(" }\n    r := mod(a, b)\n}\n"@, 1, 2, "}"@),
        at("function checked_mod(a, b) -> r {\n    if iszero(b) { "@, 33, 38, "\n    "@),
        at(" }\n    r := mod(a, b)\n}\n"@, 7, 21, "r := mod(a, b)"@),
        at(" }\n    r := mod(a, b)\n}\n"@, 2, 7, "\n    "@),
        at(" }\n    r := mod(a, b)\n}\n"@, 21, 22, "\n"@),
        at(" }\n    r := mod(a, b)\n}\n"@, 22, 23, "}"@),
        at(" }\n    r := mod(a, b)\n}\n"@, 23, 24, "\n"@),
{
    let l0 = "function checked_mod(a, b) -> r {\n    if iszero(b) { "@;
    reveal_strlit("function checked_mod(a, b) -> r {\n    if iszero(b) { ");
    let l1 = " }\n    r := mod(a, b)\n}\n"@;
    reveal_strlit(" }\n    r := mod(a, b)\n}\n");
    reveal_strlit("function checked_mod(a, b) -> r {");
    reveal_strlit("if iszero(b) {");
    reveal_strlit(" ");
    reveal_strlit("}");
    reveal_strlit("\n    ");
    reveal_strlit("r := mod(a, b)");
    reveal_strlit("\n");
    assert(l0.subrange(0, 33) =~= "function checked_mod(a, b) -> r {"@);
    assert(l0.subrange(38, 52) =~= "if iszero(b) {"@);
    assert(l0.subrange(52, 53) =~= " "@);
    assert(l1.subrange(0, 1) =~= " "@);
    assert(l1.subrange(1, 2) =~= "}"@);
    assert(l0.subrange(33, 38) =~= "\n    "@);
    assert(l1.subrange(7, 21) =~= "r := mod(a, b)"@);
    assert(l1.subrange(2, 7) =~= "\n    "@);
    assert(l1.subrange(21, 22) =~= "\n"@);
    assert(l1.subrange(22, 23) =~= "}"@);
    assert(l1.subrange(23, 24) =~= "\n"@);
}

proof fn lemma_checked_mod_pieces(rich: bool)
    ensures
        fn_head(checked_mod_fn(rich)) == "function checked_mod(a, b) -> r {"@,
        "if "@ + expr_text(op1(Op::Iszero, var("b"@))) + " {"@ == "if iszero(b) {"@,
        stmt_text(YulStmt::Put("r"@, op2(Op::Mod, var("a"@), var("b"@)))) == "r := mod(a, b)"@,
{
    lemma_joined("a"@, "b"@, Seq::empty(), Seq::empty(), Seq::empty());
    lemma_joined("r"@, Seq::empty(), Seq::empty(), Seq::empty(), Seq::empty());
    assert(fn_head(checked_mod_fn(rich)) =~= "function checked_mod(a, b) -> r {"@) by {
        broadcast use group_texts;

        reveal_strlit(" -> ");
        reveal_strlit(" {");
        reveal_strlit("(");
        reveal_strlit(")");
        reveal_strlit(", ");
        reveal_strlit("a");
        reveal_strlit("b");
        reveal_strlit("checked_mod");
        reveal_strlit("function ");
        reveal_strlit("function checked_mod(a, b) -> r {");
        reveal_strlit("r");
    }
    assert("if "@ + expr_text(op1(Op::Iszero, var("b"@))) + " {"@ =~= "if iszero(b) {"@) by {
        broadcast use group_texts;

        reveal_strlit(" {");
        reveal_strlit("(");
        reveal_strlit(")");
        reveal_strlit("b");
        reveal_strlit("if ");
        reveal_strlit("if iszero(b) {");
        reveal_strlit("iszero");
    }
    assert(stmt_text(YulStmt::Put("r"@, op2(Op::Mod, var("a"@), var("b"@)))) =~= "r := mod(a, b)"@) by {
        broadcast use group_texts;

        reveal_strlit(" := ");
        reveal_strlit("(");
        reveal_strlit(")");
        reveal_strlit(", ");
        reveal_strlit("a");
        reveal_strlit("b");
        reveal_strlit("mod");
        reveal_strlit("r");
        reveal_strlit("r := mod(a, b)");
    }
}

/// The text of `checked_mod` is that of the function that it stands for.
pub proof fn lemma_checked_mod_text(rich: bool)
    ensures
        checked_mod_src(rich) == fn_text(checked_mod_fn(rich)) + "\n"@,
{
    let l = checked_mod_src(rich);
    let l0 = "function checked_mod(a, b) -> r {\n    if iszero(b) { "@;
    assert(l0.len() == 53) by {
        reveal_strlit("function checked_mod(a, b) -> r {\n    if iszero(b) { ");
    }
    let q1: int = 53;
    let p1 = panic_spec(rich, PANIC_DIV_ZERO@);
    let q2: int = q1 + p1.len();
    let l2 = " }\n    r := mod(a, b)\n}\n"@;
    assert(l2.len() == 24) by {
        reveal_strlit(" }\n    r := mod(a, b)\n}\n");
    }
    assert(at(l, 0, (0 + l0.len()) as int, l0)) by {
        assert(l.subrange(0, (0 + l0.len()) as int) =~= l0);
    }
    assert(at(l, q1, (q1 + p1.len()) as int, p1)) by {
        assert(l.subrange(q1, (q1 + p1.len()) as int) =~= p1);
    }
    assert(at(l, q2, (q2 + l2.len()) as int, l2)) by {
        assert(l.subrange(q2, (q2 + l2.len()) as int) =~= l2);
    }
    lemma_checked_mod_cuts();
    lemma_checked_mod_pieces(rich);
    lemma_at_inside(l, 0, l0, 0, 33, "function checked_mod(a, b) -> r {"@);
    let f0 = checked_mod_fn(rich);
    lemma_at_nothing(l, 33);
    let k1 = none();
    lemma_at_inside(l, 0, l0, 38, 52, "if iszero(b) {"@);
    let c2 = op1(Op::Iszero, var("b"@));
    lemma_at_inside(l, 0, l0, 52, 53, " "@);
    lemma_at_inside(l, q2, l2, 0, 1, " "@);
    lemma_panic_at(l, 52, 53, q2 + 0, rich, PANIC_DIV_ZERO@);
    let b3 = panic_code(rich, PANIC_DIV_ZERO@);
    lemma_at_inside(l, q2, l2, 1, 2, "}"@);
    let s4 = YulStmt::If(c2, b3);
    lemma_at_if(l, 38, 52, q2 + 0, q2 + 1, c2, b3);
    lemma_at_inside(l, 0, l0, 33, 38, "\n    "@);
    lemma_at_line(l, 33, 33, 38, q2 + 2, k1, "\n    "@, s4);
    let k5 = line(k1, "\n    "@, s4);
    let s6 = YulStmt::Put("r"@, op2(Op::Mod, var("a"@), var("b"@)));
    lemma_at_inside(l, q2, l2, 7, 21, "r := mod(a, b)"@);
    lemma_at_inside(l, q2, l2, 2, 7, "\n    "@);
    lemma_at_line(l, 33, q2 + 2, q2 + 7, q2 + 21, k5, "\n    "@, s6);
    let k7 = line(k5, "\n    "@, s6);
    lemma_at_inside(l, q2, l2, 21, 22, "\n"@);
    let k8 = tail(k7, "\n"@);
    lemma_at_inside(l, q2, l2, 22, 23, "}"@);
    assert(f0.body == k8);
    lemma_at_fn(l, 0, 33, q2 + 21, q2 + 22, f0);
    lemma_at_inside(l, q2, l2, 23, 24, "\n"@);
    lemma_at_add(l, 0, q2 + 23, q2 + 24, fn_text(f0), "\n"@);
    lemma_at_whole(l, fn_text(f0) + "\n"@);
}

pub open spec fn checked_smod_fn(rich: bool) -> YulFn {
    YulFn {
        name: "checked_smod"@,
        params: seq!["a"@, "b"@],
        rets: seq!["r"@],
        body: tail(line(line(none(), "\n    "@, YulStmt::If(op1(Op::Iszero, var("b"@)), panic_code(rich, PANIC_DIV_ZERO@))), "\n    "@, YulStmt::Put("r"@, op2(Op::Smod, var("a"@), var("b"@)))), "\n"@),
    }
}

proof fn lemma_checked_smod_cuts()
    ensures
        at("function checked_smod(a, b) -> r {\n    if iszero(b) { "@, 0, 34, "function checked_smod(a, b) -> r {"@),
        at("function checked_smod(a, b) -> r {\n    if iszero(b) { "@, 39, 53, "if iszero(b) {"@),
        at("function checked_smod(a, b) -> r {\n    if iszero(b) { "@, 53, 54, " "@),
        at(" }\n    r := smod(a, b)\n}\n"@, 0, 1, " "@),
        at(" }\n    r := smod(a, b)\n}\n"@, 1, 2, "}"@),
        at("function checked_smod(a, b) -> r {\n    if iszero(b) { "@, 34, 39, "\n    "@),
        at(" }\n    r := smod(a, b)\n}\n"@, 7, 22, "r := smod(a, b)"@),
        at(" }\n    r := smod(a, b)\n}\n"@, 2, 7, "\n    "@),
        at(" }\n    r := smod(a, b)\n}\n"@, 22, 23, "\n"@),
        at(" }\n    r := smod(a, b)\n}\n"@, 23, 24, "}"@),
        at(" }\n    r := smod(a, b)\n}\n"@, 24, 25, "\n"@),
{
    let l0 = "function checked_smod(a, b) -> r {\n    if iszero(b) { "@;
    reveal_strlit("function checked_smod(a, b) -> r {\n    if iszero(b) { ");
    let l1 = " }\n    r := smod(a, b)\n}\n"@;
    reveal_strlit(" }\n    r := smod(a, b)\n}\n");
    reveal_strlit("function checked_smod(a, b) -> r {");
    reveal_strlit("if iszero(b) {");
    reveal_strlit(" ");
    reveal_strlit("}");
    reveal_strlit("\n    ");
    reveal_strlit("r := smod(a, b)");
    reveal_strlit("\n");
    assert(l0.subrange(0, 34) =~= "function checked_smod(a, b) -> r {"@);
    assert(l0.subrange(39, 53) =~= "if iszero(b) {"@);
    assert(l0.subrange(53, 54) =~= " "@);
    assert(l1.subrange(0, 1) =~= " "@);
    assert(l1.subrange(1, 2) =~= "}"@);
    assert(l0.subrange(34, 39) =~= "\n    "@);
    assert(l1.subrange(7, 22) =~= "r := smod(a, b)"@);
    assert(l1.subrange(2, 7) =~= "\n    "@);
    assert(l1.subrange(22, 23) =~= "\n"@);
    assert(l1.subrange(23, 24) =~= "}"@);
    assert(l1.subrange(24, 25) =~= "\n"@);
}

proof fn lemma_checked_smod_pieces(rich: bool)
    ensures
        fn_head(checked_smod_fn(rich)) == "function checked_smod(a, b) -> r {"@,
        "if "@ + expr_text(op1(Op::Iszero, var("b"@))) + " {"@ == "if iszero(b) {"@,
        stmt_text(YulStmt::Put("r"@, op2(Op::Smod, var("a"@), var("b"@)))) == "r := smod(a, b)"@,
{
    lemma_joined("a"@, "b"@, Seq::empty(), Seq::empty(), Seq::empty());
    lemma_joined("r"@, Seq::empty(), Seq::empty(), Seq::empty(), Seq::empty());
    assert(fn_head(checked_smod_fn(rich)) =~= "function checked_smod(a, b) -> r {"@) by {
        broadcast use group_texts;

        reveal_strlit(" -> ");
        reveal_strlit(" {");
        reveal_strlit("(");
        reveal_strlit(")");
        reveal_strlit(", ");
        reveal_strlit("a");
        reveal_strlit("b");
        reveal_strlit("checked_smod");
        reveal_strlit("function ");
        reveal_strlit("function checked_smod(a, b) -> r {");
        reveal_strlit("r");
    }
    assert("if "@ + expr_text(op1(Op::Iszero, var("b"@))) + " {"@ =~= "if iszero(b) {"@) by {
        broadcast use group_texts;

        reveal_strlit(" {");
        reveal_strlit("(");
        reveal_strlit(")");
        reveal_strlit("b");
        reveal_strlit("if ");
        reveal_strlit("if iszero(b) {");
        reveal_strlit("iszero");
    }
    assert(stmt_text(YulStmt::Put("r"@, op2(Op::Smod, var("a"@), var("b"@)))) =~= "r := smod(a, b)"@) by {
        broadcast use group_texts;

        reveal_strlit(" := ");
        reveal_strlit("(");
        reveal_strlit(")");
        reveal_strlit(", ");
        reveal_strlit("a");
        reveal_strlit("b");
        reveal_strlit("r");
        reveal_strlit("r := smod(a, b)");
        reveal_strlit("smod");
    }
}

/// The text of `checked_smod` is that of the function that it stands for.
pub proof fn lemma_checked_smod_text(rich: bool)
    ensures
        checked_smod_src(rich) == fn_text(checked_smod_fn(rich)) + "\n"@,
{
    let l = checked_smod_src(rich);
    let l0 = "function checked_smod(a, b) -> r {\n    if iszero(b) { "@;
    assert(l0.len() == 54) by {
        reveal_strlit("function checked_smod(a, b) -> r {\n    if iszero(b) { ");
    }
    let q1: int = 54;
    let p1 = panic_spec(rich, PANIC_DIV_ZERO@);
    let q2: int = q1 + p1.len();
    let l2 = " }\n    r := smod(a, b)\n}\n"@;
    assert(l2.len() == 25) by {
        reveal_strlit(" }\n    r := smod(a, b)\n}\n");
    }
    assert(at(l, 0, (0 + l0.len()) as int, l0)) by {
        assert(l.subrange(0, (0 + l0.len()) as int) =~= l0);
    }
    assert(at(l, q1, (q1 + p1.len()) as int, p1)) by {
        assert(l.subrange(q1, (q1 + p1.len()) as int) =~= p1);
    }
    assert(at(l, q2, (q2 + l2.len()) as int, l2)) by {
        assert(l.subrange(q2, (q2 + l2.len()) as int) =~= l2);
    }
    lemma_checked_smod_cuts();
    lemma_checked_smod_pieces(rich);
    lemma_at_inside(l, 0, l0, 0, 34, "function checked_smod(a, b) -> r {"@);
    let f0 = checked_smod_fn(rich);
    lemma_at_nothing(l, 34);
    let k1 = none();
    lemma_at_inside(l, 0, l0, 39, 53, "if iszero(b) {"@);
    let c2 = op1(Op::Iszero, var("b"@));
    lemma_at_inside(l, 0, l0, 53, 54, " "@);
    lemma_at_inside(l, q2, l2, 0, 1, " "@);
    lemma_panic_at(l, 53, 54, q2 + 0, rich, PANIC_DIV_ZERO@);
    let b3 = panic_code(rich, PANIC_DIV_ZERO@);
    lemma_at_inside(l, q2, l2, 1, 2, "}"@);
    let s4 = YulStmt::If(c2, b3);
    lemma_at_if(l, 39, 53, q2 + 0, q2 + 1, c2, b3);
    lemma_at_inside(l, 0, l0, 34, 39, "\n    "@);
    lemma_at_line(l, 34, 34, 39, q2 + 2, k1, "\n    "@, s4);
    let k5 = line(k1, "\n    "@, s4);
    let s6 = YulStmt::Put("r"@, op2(Op::Smod, var("a"@), var("b"@)));
    lemma_at_inside(l, q2, l2, 7, 22, "r := smod(a, b)"@);
    lemma_at_inside(l, q2, l2, 2, 7, "\n    "@);
    lemma_at_line(l, 34, q2 + 2, q2 + 7, q2 + 22, k5, "\n    "@, s6);
    let k7 = line(k5, "\n    "@, s6);
    lemma_at_inside(l, q2, l2, 22, 23, "\n"@);
    let k8 = tail(k7, "\n"@);
    lemma_at_inside(l, q2, l2, 23, 24, "}"@);
    assert(f0.body == k8);
    lemma_at_fn(l, 0, 34, q2 + 22, q2 + 23, f0);
    lemma_at_inside(l, q2, l2, 24, 25, "\n"@);
    lemma_at_add(l, 0, q2 + 24, q2 + 25, fn_text(f0), "\n"@);
    lemma_at_whole(l, fn_text(f0) + "\n"@);
}


} // verus!
