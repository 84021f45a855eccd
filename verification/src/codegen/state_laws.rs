//! What the functions do that send ether, make contracts and find the elements of an array.
use crate::codegen::call_laws::{has_bubble, law_bubble_revert};
use crate::codegen::helpers::{arr_data_base_src, gum_create_src, gum_pay_src, gum_transfer_src};
use crate::codegen::arith_laws::holds;
use crate::codegen::word::{from_bytes, is_word, lemma_bytes_len, truth, word_bytes, wrap};
use crate::codegen::yul::keccak256;
use crate::codegen::yul_num::lemma_numbers;
use crate::codegen::yul_run::{
    apply, bytes_at, called, closed, cut_bytes, entry_vars, eval, exec, give, group_steps,
    lemma_entry, lemma_run_tail, put_bytes, run, send, End, Machine, Sent,
};
use crate::codegen::yul_text::{
    at, fn_head, lemma_at_add, lemma_at_fn, lemma_at_if, lemma_at_line, lemma_at_nothing,
    lemma_at_whole, lemma_joined,
};
use crate::codegen::yul_tree::{
    expr_text, fn_text, group_texts, line, none, num, op0, op1, op2, op3, op7, own0, own1,
    stmt_text, tail, var, Op, YulFn, YulStmt,
};
use vstd::prelude::*;

verus! {

pub open spec fn gum_pay_fn() -> YulFn {
    YulFn {
        name: "gum_pay"@,
        params: seq!["to"@, "amount"@],
        rets: seq!["ok"@],
        body: tail(line(none(), "\n    "@, YulStmt::Put("ok"@, op7(Op::Call, op0(Op::Gas), var("to"@), var("amount"@), num("0"@), num("0"@), num("0"@), num("0"@)))), "\n"@),
    }
}

proof fn lemma_gum_pay_cuts()
    ensures
        at("function gum_pay(to, amount) -> ok {\n    ok := call(gas(), to, amount, 0, 0, 0, 0)\n}\n"@, 0, 36, "function gum_pay(to, amount) -> ok {"@),
        at("function gum_pay(to, amount) -> ok {\n    ok := call(gas(), to, amount, 0, 0, 0, 0)\n}\n"@, 41, 82, "ok := call(gas(), to, amount, 0, 0, 0, 0)"@),
        at("function gum_pay(to, amount) -> ok {\n    ok := call(gas(), to, amount, 0, 0, 0, 0)\n}\n"@, 36, 41, "\n    "@),
        at("function gum_pay(to, amount) -> ok {\n    ok := call(gas(), to, amount, 0, 0, 0, 0)\n}\n"@, 82, 83, "\n"@),
        at("function gum_pay(to, amount) -> ok {\n    ok := call(gas(), to, amount, 0, 0, 0, 0)\n}\n"@, 83, 84, "}"@),
        at("function gum_pay(to, amount) -> ok {\n    ok := call(gas(), to, amount, 0, 0, 0, 0)\n}\n"@, 84, 85, "\n"@),
{
    let l0 = "function gum_pay(to, amount) -> ok {\n    ok := call(gas(), to, amount, 0, 0, 0, 0)\n}\n"@;
    reveal_strlit("function gum_pay(to, amount) -> ok {\n    ok := call(gas(), to, amount, 0, 0, 0, 0)\n}\n");
    reveal_strlit("function gum_pay(to, amount) -> ok {");
    reveal_strlit("ok := call(gas(), to, amount, 0, 0, 0, 0)");
    reveal_strlit("\n    ");
    reveal_strlit("\n");
    reveal_strlit("}");
    assert(l0.subrange(0, 36) =~= "function gum_pay(to, amount) -> ok {"@);
    assert(l0.subrange(41, 82) =~= "ok := call(gas(), to, amount, 0, 0, 0, 0)"@);
    assert(l0.subrange(36, 41) =~= "\n    "@);
    assert(l0.subrange(82, 83) =~= "\n"@);
    assert(l0.subrange(83, 84) =~= "}"@);
    assert(l0.subrange(84, 85) =~= "\n"@);
}

proof fn lemma_gum_pay_pieces()
    ensures
        fn_head(gum_pay_fn()) == "function gum_pay(to, amount) -> ok {"@,
        stmt_text(YulStmt::Put("ok"@, op7(Op::Call, op0(Op::Gas), var("to"@), var("amount"@), num("0"@), num("0"@), num("0"@), num("0"@)))) == "ok := call(gas(), to, amount, 0, 0, 0, 0)"@,
{
    lemma_joined("to"@, "amount"@, Seq::empty(), Seq::empty(), Seq::empty());
    lemma_joined("ok"@, Seq::empty(), Seq::empty(), Seq::empty(), Seq::empty());
    assert(fn_head(gum_pay_fn()) =~= "function gum_pay(to, amount) -> ok {"@) by {
        broadcast use group_texts;

        reveal_strlit(" -> ");
        reveal_strlit(" {");
        reveal_strlit("(");
        reveal_strlit(")");
        reveal_strlit(", ");
        reveal_strlit("amount");
        reveal_strlit("function ");
        reveal_strlit("function gum_pay(to, amount) -> ok {");
        reveal_strlit("gum_pay");
        reveal_strlit("ok");
        reveal_strlit("to");
    }
    assert(stmt_text(YulStmt::Put("ok"@, op7(Op::Call, op0(Op::Gas), var("to"@), var("amount"@), num("0"@), num("0"@), num("0"@), num("0"@)))) =~= "ok := call(gas(), to, amount, 0, 0, 0, 0)"@) by {
        broadcast use group_texts;

        reveal_strlit(" := ");
        reveal_strlit("(");
        reveal_strlit(")");
        reveal_strlit(", ");
        reveal_strlit("0");
        reveal_strlit("amount");
        reveal_strlit("call");
        reveal_strlit("gas");
        reveal_strlit("ok");
        reveal_strlit("ok := call(gas(), to, amount, 0, 0, 0, 0)");
        reveal_strlit("to");
    }
}

/// The text of `gum_pay` is that of the function that it stands for.
pub proof fn lemma_gum_pay_text()
    ensures
        gum_pay_src() == fn_text(gum_pay_fn()) + "\n"@,
{
    let l = gum_pay_src();
    let l0 = "function gum_pay(to, amount) -> ok {\n    ok := call(gas(), to, amount, 0, 0, 0, 0)\n}\n"@;
    assert(l0.len() == 85) by {
        reveal_strlit("function gum_pay(to, amount) -> ok {\n    ok := call(gas(), to, amount, 0, 0, 0, 0)\n}\n");
    }
    lemma_gum_pay_cuts();
    lemma_gum_pay_pieces();
    let f0 = gum_pay_fn();
    lemma_at_nothing(l, 36);
    let k1 = none();
    let s2 = YulStmt::Put("ok"@, op7(Op::Call, op0(Op::Gas), var("to"@), var("amount"@), num("0"@), num("0"@), num("0"@), num("0"@)));
    lemma_at_line(l, 36, 36, 41, 82, k1, "\n    "@, s2);
    let k3 = line(k1, "\n    "@, s2);
    let k4 = tail(k3, "\n"@);
    assert(f0.body == k4);
    lemma_at_fn(l, 0, 36, 82, 83, f0);
    lemma_at_add(l, 0, 84, 85, fn_text(f0), "\n"@);
    lemma_at_whole(l, fn_text(f0) + "\n"@);
}

pub open spec fn gum_transfer_fn() -> YulFn {
    YulFn {
        name: "gum_transfer"@,
        params: seq!["to"@, "amount"@],
        rets: Seq::empty(),
        body: tail(line(none(), "\n    "@, YulStmt::If(op1(Op::Iszero, op7(Op::Call, op0(Op::Gas), var("to"@), var("amount"@), num("0"@), num("0"@), num("0"@), num("0"@))), tail(line(line(none(), "\n        "@, YulStmt::Do(op3(Op::Returndatacopy, num("0"@), num("0"@), op0(Op::Returndatasize)))), "\n        "@, YulStmt::Do(op2(Op::Revert, num("0"@), op0(Op::Returndatasize)))), "\n    "@))), "\n"@),
    }
}

proof fn lemma_gum_transfer_cuts()
    ensures
        at("function gum_transfer(to, amount) {\n    if iszero(call(gas(), to, amount, 0, 0, 0, 0)) {\n        returndatacopy(0, 0, returndatasize())\n        revert(0, returndatasize())\n    }\n}\n"@, 0, 35, "function gum_transfer(to, amount) {"@),
        at("function gum_transfer(to, amount) {\n    if iszero(call(gas(), to, amount, 0, 0, 0, 0)) {\n        returndatacopy(0, 0, returndatasize())\n        revert(0, returndatasize())\n    }\n}\n"@, 40, 88, "if iszero(call(gas(), to, amount, 0, 0, 0, 0)) {"@),
        at("function gum_transfer(to, amount) {\n    if iszero(call(gas(), to, amount, 0, 0, 0, 0)) {\n        returndatacopy(0, 0, returndatasize())\n        revert(0, returndatasize())\n    }\n}\n"@, 97, 135, "returndatacopy(0, 0, returndatasize())"@),
        at("function gum_transfer(to, amount) {\n    if iszero(call(gas(), to, amount, 0, 0, 0, 0)) {\n        returndatacopy(0, 0, returndatasize())\n        revert(0, returndatasize())\n    }\n}\n"@, 88, 97, "\n        "@),
        at("function gum_transfer(to, amount) {\n    if iszero(call(gas(), to, amount, 0, 0, 0, 0)) {\n        returndatacopy(0, 0, returndatasize())\n        revert(0, returndatasize())\n    }\n}\n"@, 144, 171, "revert(0, returndatasize())"@),
        at("function gum_transfer(to, amount) {\n    if iszero(call(gas(), to, amount, 0, 0, 0, 0)) {\n        returndatacopy(0, 0, returndatasize())\n        revert(0, returndatasize())\n    }\n}\n"@, 135, 144, "\n        "@),
        at("function gum_transfer(to, amount) {\n    if iszero(call(gas(), to, amount, 0, 0, 0, 0)) {\n        returndatacopy(0, 0, returndatasize())\n        revert(0, returndatasize())\n    }\n}\n"@, 171, 176, "\n    "@),
        at("function gum_transfer(to, amount) {\n    if iszero(call(gas(), to, amount, 0, 0, 0, 0)) {\n        returndatacopy(0, 0, returndatasize())\n        revert(0, returndatasize())\n    }\n}\n"@, 176, 177, "}"@),
        at("function gum_transfer(to, amount) {\n    if iszero(call(gas(), to, amount, 0, 0, 0, 0)) {\n        returndatacopy(0, 0, returndatasize())\n        revert(0, returndatasize())\n    }\n}\n"@, 35, 40, "\n    "@),
        at("function gum_transfer(to, amount) {\n    if iszero(call(gas(), to, amount, 0, 0, 0, 0)) {\n        returndatacopy(0, 0, returndatasize())\n        revert(0, returndatasize())\n    }\n}\n"@, 177, 178, "\n"@),
        at("function gum_transfer(to, amount) {\n    if iszero(call(gas(), to, amount, 0, 0, 0, 0)) {\n        returndatacopy(0, 0, returndatasize())\n        revert(0, returndatasize())\n    }\n}\n"@, 178, 179, "}"@),
        at("function gum_transfer(to, amount) {\n    if iszero(call(gas(), to, amount, 0, 0, 0, 0)) {\n        returndatacopy(0, 0, returndatasize())\n        revert(0, returndatasize())\n    }\n}\n"@, 179, 180, "\n"@),
{
    let l0 = "function gum_transfer(to, amount) {\n    if iszero(call(gas(), to, amount, 0, 0, 0, 0)) {\n        returndatacopy(0, 0, returndatasize())\n        revert(0, returndatasize())\n    }\n}\n"@;
    reveal_strlit("function gum_transfer(to, amount) {\n    if iszero(call(gas(), to, amount, 0, 0, 0, 0)) {\n        returndatacopy(0, 0, returndatasize())\n        revert(0, returndatasize())\n    }\n}\n");
    reveal_strlit("function gum_transfer(to, amount) {");
    reveal_strlit("if iszero(call(gas(), to, amount, 0, 0, 0, 0)) {");
    reveal_strlit("returndatacopy(0, 0, returndatasize())");
    reveal_strlit("\n        ");
    reveal_strlit("revert(0, returndatasize())");
    reveal_strlit("\n    ");
    reveal_strlit("}");
    reveal_strlit("\n");
    assert(l0.subrange(0, 35) =~= "function gum_transfer(to, amount) {"@);
    assert(l0.subrange(40, 88) =~= "if iszero(call(gas(), to, amount, 0, 0, 0, 0)) {"@);
    assert(l0.subrange(97, 135) =~= "returndatacopy(0, 0, returndatasize())"@);
    assert(l0.subrange(88, 97) =~= "\n        "@);
    assert(l0.subrange(144, 171) =~= "revert(0, returndatasize())"@);
    assert(l0.subrange(135, 144) =~= "\n        "@);
    assert(l0.subrange(171, 176) =~= "\n    "@);
    assert(l0.subrange(176, 177) =~= "}"@);
    assert(l0.subrange(35, 40) =~= "\n    "@);
    assert(l0.subrange(177, 178) =~= "\n"@);
    assert(l0.subrange(178, 179) =~= "}"@);
    assert(l0.subrange(179, 180) =~= "\n"@);
}

proof fn lemma_gum_transfer_pieces()
    ensures
        fn_head(gum_transfer_fn()) == "function gum_transfer(to, amount) {"@,
        "if "@ + expr_text(op1(Op::Iszero, op7(Op::Call, op0(Op::Gas), var("to"@), var("amount"@), num("0"@), num("0"@), num("0"@), num("0"@)))) + " {"@ == "if iszero(call(gas(), to, amount, 0, 0, 0, 0)) {"@,
        stmt_text(YulStmt::Do(op3(Op::Returndatacopy, num("0"@), num("0"@), op0(Op::Returndatasize)))) == "returndatacopy(0, 0, returndatasize())"@,
        stmt_text(YulStmt::Do(op2(Op::Revert, num("0"@), op0(Op::Returndatasize)))) == "revert(0, returndatasize())"@,
{
    lemma_joined("to"@, "amount"@, Seq::empty(), Seq::empty(), Seq::empty());
    assert(fn_head(gum_transfer_fn()) =~= "function gum_transfer(to, amount) {"@) by {
        broadcast use group_texts;

        reveal_strlit(" {");
        reveal_strlit("(");
        reveal_strlit(")");
        reveal_strlit(", ");
        reveal_strlit("amount");
        reveal_strlit("function ");
        reveal_strlit("function gum_transfer(to, amount) {");
        reveal_strlit("gum_transfer");
        reveal_strlit("to");
    }
    assert("if "@ + expr_text(op1(Op::Iszero, op7(Op::Call, op0(Op::Gas), var("to"@), var("amount"@), num("0"@), num("0"@), num("0"@), num("0"@)))) + " {"@ =~= "if iszero(call(gas(), to, amount, 0, 0, 0, 0)) {"@) by {
        broadcast use group_texts;

        reveal_strlit(" {");
        reveal_strlit("(");
        reveal_strlit(")");
        reveal_strlit(", ");
        reveal_strlit("0");
        reveal_strlit("amount");
        reveal_strlit("call");
        reveal_strlit("gas");
        reveal_strlit("if ");
        reveal_strlit("if iszero(call(gas(), to, amount, 0, 0, 0, 0)) {");
        reveal_strlit("iszero");
        reveal_strlit("to");
    }
    assert(stmt_text(YulStmt::Do(op3(Op::Returndatacopy, num("0"@), num("0"@), op0(Op::Returndatasize)))) =~= "returndatacopy(0, 0, returndatasize())"@) by {
        broadcast use group_texts;

        reveal_strlit("(");
        reveal_strlit(")");
        reveal_strlit(", ");
        reveal_strlit("0");
        reveal_strlit("returndatacopy");
        reveal_strlit("returndatacopy(0, 0, returndatasize())");
        reveal_strlit("returndatasize");
    }
    assert(stmt_text(YulStmt::Do(op2(Op::Revert, num("0"@), op0(Op::Returndatasize)))) =~= "revert(0, returndatasize())"@) by {
        broadcast use group_texts;

        reveal_strlit("(");
        reveal_strlit(")");
        reveal_strlit(", ");
        reveal_strlit("0");
        reveal_strlit("returndatasize");
        reveal_strlit("revert");
        reveal_strlit("revert(0, returndatasize())");
    }
}

/// The text of `gum_transfer` is that of the function that it stands for.
pub proof fn lemma_gum_transfer_text()
    ensures
        gum_transfer_src() == fn_text(gum_transfer_fn()) + "\n"@,
{
    let l = gum_transfer_src();
    let l0 = "function gum_transfer(to, amount) {\n    if iszero(call(gas(), to, amount, 0, 0, 0, 0)) {\n        returndatacopy(0, 0, returndatasize())\n        revert(0, returndatasize())\n    }\n}\n"@;
    assert(l0.len() == 180) by {
        reveal_strlit("function gum_transfer(to, amount) {\n    if iszero(call(gas(), to, amount, 0, 0, 0, 0)) {\n        returndatacopy(0, 0, returndatasize())\n        revert(0, returndatasize())\n    }\n}\n");
    }
    lemma_gum_transfer_cuts();
    lemma_gum_transfer_pieces();
    let f0 = gum_transfer_fn();
    lemma_at_nothing(l, 35);
    let k1 = none();
    let c2 = op1(Op::Iszero, op7(Op::Call, op0(Op::Gas), var("to"@), var("amount"@), num("0"@), num("0"@), num("0"@), num("0"@)));
    lemma_at_nothing(l, 88);
    let k3 = none();
    let s4 = YulStmt::Do(op3(Op::Returndatacopy, num("0"@), num("0"@), op0(Op::Returndatasize)));
    lemma_at_line(l, 88, 88, 97, 135, k3, "\n        "@, s4);
    let k5 = line(k3, "\n        "@, s4);
    let s6 = YulStmt::Do(op2(Op::Revert, num("0"@), op0(Op::Returndatasize)));
    lemma_at_line(l, 88, 135, 144, 171, k5, "\n        "@, s6);
    let k7 = line(k5, "\n        "@, s6);
    let k8 = tail(k7, "\n    "@);
    let s9 = YulStmt::If(c2, k8);
    lemma_at_if(l, 40, 88, 171, 176, c2, k8);
    lemma_at_line(l, 35, 35, 40, 177, k1, "\n    "@, s9);
    let k10 = line(k1, "\n    "@, s9);
    let k11 = tail(k10, "\n"@);
    assert(f0.body == k11);
    lemma_at_fn(l, 0, 35, 177, 178, f0);
    lemma_at_add(l, 0, 179, 180, fn_text(f0), "\n"@);
    lemma_at_whole(l, fn_text(f0) + "\n"@);
}

pub open spec fn arr_data_base_fn() -> YulFn {
    YulFn {
        name: "arr_data_base"@,
        params: seq!["len_slot"@],
        rets: seq!["b"@],
        body: tail(line(line(none(), "\n    "@, YulStmt::Do(op2(Op::Mstore, num("0"@), var("len_slot"@)))), "\n    "@, YulStmt::Put("b"@, op2(Op::Keccak256, num("0"@), num("32"@)))), "\n"@),
    }
}

proof fn lemma_arr_data_base_cuts()
    ensures
        at("function arr_data_base(len_slot) -> b {\n    mstore(0, len_slot)\n    b := keccak256(0, 32)\n}\n"@, 0, 39, "function arr_data_base(len_slot) -> b {"@),
        at("function arr_data_base(len_slot) -> b {\n    mstore(0, len_slot)\n    b := keccak256(0, 32)\n}\n"@, 44, 63, "mstore(0, len_slot)"@),
        at("function arr_data_base(len_slot) -> b {\n    mstore(0, len_slot)\n    b := keccak256(0, 32)\n}\n"@, 39, 44, "\n    "@),
        at("function arr_data_base(len_slot) -> b {\n    mstore(0, len_slot)\n    b := keccak256(0, 32)\n}\n"@, 68, 89, "b := keccak256(0, 32)"@),
        at("function arr_data_base(len_slot) -> b {\n    mstore(0, len_slot)\n    b := keccak256(0, 32)\n}\n"@, 63, 68, "\n    "@),
        at("function arr_data_base(len_slot) -> b {\n    mstore(0, len_slot)\n    b := keccak256(0, 32)\n}\n"@, 89, 90, "\n"@),
        at("function arr_data_base(len_slot) -> b {\n    mstore(0, len_slot)\n    b := keccak256(0, 32)\n}\n"@, 90, 91, "}"@),
        at("function arr_data_base(len_slot) -> b {\n    mstore(0, len_slot)\n    b := keccak256(0, 32)\n}\n"@, 91, 92, "\n"@),
{
    let l0 = "function arr_data_base(len_slot) -> b {\n    mstore(0, len_slot)\n    b := keccak256(0, 32)\n}\n"@;
    reveal_strlit("function arr_data_base(len_slot) -> b {\n    mstore(0, len_slot)\n    b := keccak256(0, 32)\n}\n");
    reveal_strlit("function arr_data_base(len_slot) -> b {");
    reveal_strlit("mstore(0, len_slot)");
    reveal_strlit("\n    ");
    reveal_strlit("b := keccak256(0, 32)");
    reveal_strlit("\n");
    reveal_strlit("}");
    assert(l0.subrange(0, 39) =~= "function arr_data_base(len_slot) -> b {"@);
    assert(l0.subrange(44, 63) =~= "mstore(0, len_slot)"@);
    assert(l0.subrange(39, 44) =~= "\n    "@);
    assert(l0.subrange(68, 89) =~= "b := keccak256(0, 32)"@);
    assert(l0.subrange(63, 68) =~= "\n    "@);
    assert(l0.subrange(89, 90) =~= "\n"@);
    assert(l0.subrange(90, 91) =~= "}"@);
    assert(l0.subrange(91, 92) =~= "\n"@);
}

proof fn lemma_arr_data_base_pieces()
    ensures
        fn_head(arr_data_base_fn()) == "function arr_data_base(len_slot) -> b {"@,
        stmt_text(YulStmt::Do(op2(Op::Mstore, num("0"@), var("len_slot"@)))) == "mstore(0, len_slot)"@,
        stmt_text(YulStmt::Put("b"@, op2(Op::Keccak256, num("0"@), num("32"@)))) == "b := keccak256(0, 32)"@,
{
    lemma_joined("len_slot"@, Seq::empty(), Seq::empty(), Seq::empty(), Seq::empty());
    lemma_joined("b"@, Seq::empty(), Seq::empty(), Seq::empty(), Seq::empty());
    assert(fn_head(arr_data_base_fn()) =~= "function arr_data_base(len_slot) -> b {"@) by {
        broadcast use group_texts;

        reveal_strlit(" -> ");
        reveal_strlit(" {");
        reveal_strlit("(");
        reveal_strlit(")");
        reveal_strlit("arr_data_base");
        reveal_strlit("b");
        reveal_strlit("function ");
        reveal_strlit("function arr_data_base(len_slot) -> b {");
        reveal_strlit("len_slot");
    }
    assert(stmt_text(YulStmt::Do(op2(Op::Mstore, num("0"@), var("len_slot"@)))) =~= "mstore(0, len_slot)"@) by {
        broadcast use group_texts;

        reveal_strlit("(");
        reveal_strlit(")");
        reveal_strlit(", ");
        reveal_strlit("0");
        reveal_strlit("len_slot");
        reveal_strlit("mstore");
        reveal_strlit("mstore(0, len_slot)");
    }
    assert(stmt_text(YulStmt::Put("b"@, op2(Op::Keccak256, num("0"@), num("32"@)))) =~= "b := keccak256(0, 32)"@) by {
        broadcast use group_texts;

        reveal_strlit(" := ");
        reveal_strlit("(");
        reveal_strlit(")");
        reveal_strlit(", ");
        reveal_strlit("0");
        reveal_strlit("32");
        reveal_strlit("b");
        reveal_strlit("b := keccak256(0, 32)");
        reveal_strlit("keccak256");
    }
}

/// The text of `arr_data_base` is that of the function that it stands for.
pub proof fn lemma_arr_data_base_text()
    ensures
        arr_data_base_src() == fn_text(arr_data_base_fn()) + "\n"@,
{
    let l = arr_data_base_src();
    let l0 = "function arr_data_base(len_slot) -> b {\n    mstore(0, len_slot)\n    b := keccak256(0, 32)\n}\n"@;
    assert(l0.len() == 92) by {
        reveal_strlit("function arr_data_base(len_slot) -> b {\n    mstore(0, len_slot)\n    b := keccak256(0, 32)\n}\n");
    }
    lemma_arr_data_base_cuts();
    lemma_arr_data_base_pieces();
    let f0 = arr_data_base_fn();
    lemma_at_nothing(l, 39);
    let k1 = none();
    let s2 = YulStmt::Do(op2(Op::Mstore, num("0"@), var("len_slot"@)));
    lemma_at_line(l, 39, 39, 44, 63, k1, "\n    "@, s2);
    let k3 = line(k1, "\n    "@, s2);
    let s4 = YulStmt::Put("b"@, op2(Op::Keccak256, num("0"@), num("32"@)));
    lemma_at_line(l, 39, 63, 68, 89, k3, "\n    "@, s4);
    let k5 = line(k3, "\n    "@, s4);
    let k6 = tail(k5, "\n"@);
    assert(f0.body == k6);
    lemma_at_fn(l, 0, 39, 89, 90, f0);
    lemma_at_add(l, 0, 91, 92, fn_text(f0), "\n"@);
    lemma_at_whole(l, fn_text(f0) + "\n"@);
}

pub open spec fn gum_create_fn() -> YulFn {
    YulFn {
        name: "gum_create"@,
        params: seq!["codeptr"@, "value"@],
        rets: seq!["addr"@],
        body: tail(line(line(none(), "\n    "@, YulStmt::Put("addr"@, op3(Op::Create, var("value"@), op2(Op::Add, var("codeptr"@), num("32"@)), own1("gum_str_len"@, var("codeptr"@))))), "\n    "@, YulStmt::If(op1(Op::Iszero, var("addr"@)), tail(line(none(), " "@, YulStmt::Do(own0("gum_bubble_revert"@))), " "@))), "\n"@),
    }
}

proof fn lemma_gum_create_cuts()
    ensures
        at("function gum_create(codeptr, value) -> addr {\n    addr := create(value, add(codeptr, 32), gum_str_len(codeptr))\n    if iszero(addr) { gum_bubble_revert() }\n}\n"@, 0, 45, "function gum_create(codeptr, value) -> addr {"@),
        at("function gum_create(codeptr, value) -> addr {\n    addr := create(value, add(codeptr, 32), gum_str_len(codeptr))\n    if iszero(addr) { gum_bubble_revert() }\n}\n"@, 50, 111, "addr := create(value, add(codeptr, 32), gum_str_len(codeptr))"@),
        at("function gum_create(codeptr, value) -> addr {\n    addr := create(value, add(codeptr, 32), gum_str_len(codeptr))\n    if iszero(addr) { gum_bubble_revert() }\n}\n"@, 45, 50, "\n    "@),
        at("function gum_create(codeptr, value) -> addr {\n    addr := create(value, add(codeptr, 32), gum_str_len(codeptr))\n    if iszero(addr) { gum_bubble_revert() }\n}\n"@, 116, 133, "if iszero(addr) {"@),
        at("function gum_create(codeptr, value) -> addr {\n    addr := create(value, add(codeptr, 32), gum_str_len(codeptr))\n    if iszero(addr) { gum_bubble_revert() }\n}\n"@, 134, 153, "gum_bubble_revert()"@),
        at("function gum_create(codeptr, value) -> addr {\n    addr := create(value, add(codeptr, 32), gum_str_len(codeptr))\n    if iszero(addr) { gum_bubble_revert() }\n}\n"@, 133, 134, " "@),
        at("function gum_create(codeptr, value) -> addr {\n    addr := create(value, add(codeptr, 32), gum_str_len(codeptr))\n    if iszero(addr) { gum_bubble_revert() }\n}\n"@, 153, 154, " "@),
        at("function gum_create(codeptr, value) -> addr {\n    addr := create(value, add(codeptr, 32), gum_str_len(codeptr))\n    if iszero(addr) { gum_bubble_revert() }\n}\n"@, 154, 155, "}"@),
        at("function gum_create(codeptr, value) -> addr {\n    addr := create(value, add(codeptr, 32), gum_str_len(codeptr))\n    if iszero(addr) { gum_bubble_revert() }\n}\n"@, 111, 116, "\n    "@),
        at("function gum_create(codeptr, value) -> addr {\n    addr := create(value, add(codeptr, 32), gum_str_len(codeptr))\n    if iszero(addr) { gum_bubble_revert() }\n}\n"@, 155, 156, "\n"@),
        at("function gum_create(codeptr, value) -> addr {\n    addr := create(value, add(codeptr, 32), gum_str_len(codeptr))\n    if iszero(addr) { gum_bubble_revert() }\n}\n"@, 156, 157, "}"@),
        at("function gum_create(codeptr, value) -> addr {\n    addr := create(value, add(codeptr, 32), gum_str_len(codeptr))\n    if iszero(addr) { gum_bubble_revert() }\n}\n"@, 157, 158, "\n"@),
{
    let l0 = "function gum_create(codeptr, value) -> addr {\n    addr := create(value, add(codeptr, 32), gum_str_len(codeptr))\n    if iszero(addr) { gum_bubble_revert() }\n}\n"@;
    reveal_strlit("function gum_create(codeptr, value) -> addr {\n    addr := create(value, add(codeptr, 32), gum_str_len(codeptr))\n    if iszero(addr) { gum_bubble_revert() }\n}\n");
    reveal_strlit("function gum_create(codeptr, value) -> addr {");
    reveal_strlit("addr := create(value, add(codeptr, 32), gum_str_len(codeptr))");
    reveal_strlit("\n    ");
    reveal_strlit("if iszero(addr) {");
    reveal_strlit("gum_bubble_revert()");
    reveal_strlit(" ");
    reveal_strlit("}");
    reveal_strlit("\n");
    assert(l0.subrange(0, 45) =~= "function gum_create(codeptr, value) -> addr {"@);
    assert(l0.subrange(50, 111) =~= "addr := create(value, add(codeptr, 32), gum_str_len(codeptr))"@);
    assert(l0.subrange(45, 50) =~= "\n    "@);
    assert(l0.subrange(116, 133) =~= "if iszero(addr) {"@);
    assert(l0.subrange(134, 153) =~= "gum_bubble_revert()"@);
    assert(l0.subrange(133, 134) =~= " "@);
    assert(l0.subrange(153, 154) =~= " "@);
    assert(l0.subrange(154, 155) =~= "}"@);
    assert(l0.subrange(111, 116) =~= "\n    "@);
    assert(l0.subrange(155, 156) =~= "\n"@);
    assert(l0.subrange(156, 157) =~= "}"@);
    assert(l0.subrange(157, 158) =~= "\n"@);
}

proof fn lemma_gum_create_pieces()
    ensures
        fn_head(gum_create_fn()) == "function gum_create(codeptr, value) -> addr {"@,
        stmt_text(YulStmt::Put("addr"@, op3(Op::Create, var("value"@), op2(Op::Add, var("codeptr"@), num("32"@)), own1("gum_str_len"@, var("codeptr"@))))) == "addr := create(value, add(codeptr, 32), gum_str_len(codeptr))"@,
        "if "@ + expr_text(op1(Op::Iszero, var("addr"@))) + " {"@ == "if iszero(addr) {"@,
        stmt_text(YulStmt::Do(own0("gum_bubble_revert"@))) == "gum_bubble_revert()"@,
{
    lemma_joined("codeptr"@, "value"@, Seq::empty(), Seq::empty(), Seq::empty());
    lemma_joined("addr"@, Seq::empty(), Seq::empty(), Seq::empty(), Seq::empty());
    assert(fn_head(gum_create_fn()) =~= "function gum_create(codeptr, value) -> addr {"@) by {
        broadcast use group_texts;

        reveal_strlit(" -> ");
        reveal_strlit(" {");
        reveal_strlit("(");
        reveal_strlit(")");
        reveal_strlit(", ");
        reveal_strlit("addr");
        reveal_strlit("codeptr");
        reveal_strlit("function ");
        reveal_strlit("function gum_create(codeptr, value) -> addr {");
        reveal_strlit("gum_create");
        reveal_strlit("value");
    }
    assert(stmt_text(YulStmt::Put("addr"@, op3(Op::Create, var("value"@), op2(Op::Add, var("codeptr"@), num("32"@)), own1("gum_str_len"@, var("codeptr"@))))) =~= "addr := create(value, add(codeptr, 32), gum_str_len(codeptr))"@) by {
        broadcast use group_texts;

        reveal_strlit(" := ");
        reveal_strlit("(");
        reveal_strlit(")");
        reveal_strlit(", ");
        reveal_strlit("32");
        reveal_strlit("add");
        reveal_strlit("addr");
        reveal_strlit("addr := create(value, add(codeptr, 32), gum_str_len(codeptr))");
        reveal_strlit("codeptr");
        reveal_strlit("create");
        reveal_strlit("gum_str_len");
        reveal_strlit("value");
    }
    assert("if "@ + expr_text(op1(Op::Iszero, var("addr"@))) + " {"@ =~= "if iszero(addr) {"@) by {
        broadcast use group_texts;

        reveal_strlit(" {");
        reveal_strlit("(");
        reveal_strlit(")");
        reveal_strlit("addr");
        reveal_strlit("if ");
        reveal_strlit("if iszero(addr) {");
        reveal_strlit("iszero");
    }
    assert(stmt_text(YulStmt::Do(own0("gum_bubble_revert"@))) =~= "gum_bubble_revert()"@) by {
        broadcast use group_texts;

        reveal_strlit("(");
        reveal_strlit(")");
        reveal_strlit("gum_bubble_revert");
        reveal_strlit("gum_bubble_revert()");
    }
}

/// The text of `gum_create` is that of the function that it stands for.
pub proof fn lemma_gum_create_text()
    ensures
        gum_create_src() == fn_text(gum_create_fn()) + "\n"@,
{
    let l = gum_create_src();
    let l0 = "function gum_create(codeptr, value) -> addr {\n    addr := create(value, add(codeptr, 32), gum_str_len(codeptr))\n    if iszero(addr) { gum_bubble_revert() }\n}\n"@;
    assert(l0.len() == 158) by {
        reveal_strlit("function gum_create(codeptr, value) -> addr {\n    addr := create(value, add(codeptr, 32), gum_str_len(codeptr))\n    if iszero(addr) { gum_bubble_revert() }\n}\n");
    }
    lemma_gum_create_cuts();
    lemma_gum_create_pieces();
    let f0 = gum_create_fn();
    lemma_at_nothing(l, 45);
    let k1 = none();
    let s2 = YulStmt::Put("addr"@, op3(Op::Create, var("value"@), op2(Op::Add, var("codeptr"@), num("32"@)), own1("gum_str_len"@, var("codeptr"@))));
    lemma_at_line(l, 45, 45, 50, 111, k1, "\n    "@, s2);
    let k3 = line(k1, "\n    "@, s2);
    let c4 = op1(Op::Iszero, var("addr"@));
    lemma_at_nothing(l, 133);
    let k5 = none();
    let s6 = YulStmt::Do(own0("gum_bubble_revert"@));
    lemma_at_line(l, 133, 133, 134, 153, k5, " "@, s6);
    let k7 = line(k5, " "@, s6);
    let k8 = tail(k7, " "@);
    let s9 = YulStmt::If(c4, k8);
    lemma_at_if(l, 116, 133, 153, 154, c4, k8);
    lemma_at_line(l, 45, 111, 116, 155, k3, "\n    "@, s9);
    let k10 = line(k3, "\n    "@, s9);
    let k11 = tail(k10, "\n"@);
    assert(f0.body == k11);
    lemma_at_fn(l, 0, 45, 155, 156, f0);
    lemma_at_add(l, 0, 157, 158, fn_text(f0), "\n"@);
    lemma_at_whole(l, fn_text(f0) + "\n"@);
}


/// The value of a call that sends ether and nothing else.
proof fn lemma_paid(p: Map<Seq<char>, YulFn>, m: Machine, d: nat)
    requires
        m.vars.contains_key("to"@),
        m.vars.contains_key("amount"@),
        m.told.contains_key(Op::Gas),
    ensures
        ({
            let e = op7(
                Op::Call,
                op0(Op::Gas),
                var("to"@),
                var("amount"@),
                num("0"@),
                num("0"@),
                num("0"@),
                num("0"@),
            );
            let s = Sent { to: m.vars["to"@], value: m.vars["amount"@], data: Seq::empty() };
            eval(p, m, e, d) == give(send(m, s), truth(m.replies[m.sent.len()].ok))
        }),
{
    lemma_numbers();
    let r = m.replies[m.sent.len()];
    let s = Sent { to: m.vars["to"@], value: m.vars["amount"@], data: Seq::empty() };
    assert(eval(p, m, op0(Op::Gas), d) == give(m, m.told[Op::Gas])) by {
        broadcast use group_steps;

        reveal(apply);
    }
    assert(bytes_at(m.mem, 0, 0) =~= Seq::<u8>::empty());
    let n = send(m, s);
    assert(put_bytes(n.mem, 0, cut_bytes(r.data, 0, 0)) =~= n.mem);
    broadcast use group_steps;

    reveal(apply);
}

proof fn lemma_payee(f: YulFn, vs: Seq<int>)
    requires
        f.params == seq!["to"@, "amount"@],
        f.rets == seq!["ok"@] || f.rets == Seq::<Seq<char>>::empty(),
        vs.len() == 2,
    ensures
        entry_vars(f, vs).contains_key("to"@) && entry_vars(f, vs)["to"@] == vs[0],
        entry_vars(f, vs).contains_key("amount"@) && entry_vars(f, vs)["amount"@] == vs[1],
{
    reveal_strlit("to");
    reveal_strlit("amount");
    assert(f.params[0].len() != f.params[1].len());
    lemma_entry(f, vs);
    assert(f.params[0] == "to"@ && f.params[1] == "amount"@);
}

/// `gum_pay` sends the amount to the address, without data, and tells whether that succeeded;
/// it never reverts.
pub proof fn law_pay(p: Map<Seq<char>, YulFn>, m: Machine, vs: Seq<int>, d: nat)
    requires
        holds(p, gum_pay_fn()),
        d > 0,
        vs.len() == 2,
        m.told.contains_key(Op::Gas),
    ensures
        gum_pay_src() == fn_text(gum_pay_fn()) + "\n"@,
        ({
            let o = called(p, m, "gum_pay"@, vs, d);
            let s = Sent { to: vs[0], value: vs[1], data: Seq::empty() };
            o == give(send(m, s), truth(m.replies[m.sent.len()].ok))
        }),
{
    lemma_gum_pay_text();
    let f = gum_pay_fn();
    let t = (d - 1) as nat;
    let m0 = Machine { vars: entry_vars(f, vs), ..m };
    lemma_payee(f, vs);
    lemma_paid(p, m0, t);
    broadcast use group_steps;

}

/// `gum_transfer` sends the amount to the address, without data. Where that fails, it reverts
/// with exactly what came back, and where it succeeds, it does not.
pub proof fn law_transfer(p: Map<Seq<char>, YulFn>, m: Machine, vs: Seq<int>, d: nat)
    requires
        holds(p, gum_transfer_fn()),
        d > 0,
        vs.len() == 2,
        m.told.contains_key(Op::Gas),
    ensures
        gum_transfer_src() == fn_text(gum_transfer_fn()) + "\n"@,
        ({
            let o = called(p, m, "gum_transfer"@, vs, d);
            let r = m.replies[m.sent.len()];
            let s = Sent { to: vs[0], value: vs[1], data: Seq::empty() };
            &&& o.m.sent == m.sent.push(s)
            &&& r.ok ==> o == give(send(m, s), 0)
            &&& !r.ok ==> o.end == End::Revert(r.data)
        }),
{
    lemma_gum_transfer_text();
    lemma_numbers();
    let f = gum_transfer_fn();
    let t = (d - 1) as nat;
    let m0 = Machine { vars: entry_vars(f, vs), ..m };
    lemma_payee(f, vs);
    lemma_paid(p, m0, t);
    let r = m.replies[m.sent.len()];
    let s = Sent { to: vs[0], value: vs[1], data: Seq::empty() };
    let n = send(m0, s);
    let e = op7(
        Op::Call,
        op0(Op::Gas),
        var("to"@),
        var("amount"@),
        num("0"@),
        num("0"@),
        num("0"@),
        num("0"@),
    );
    let cond = op1(Op::Iszero, e);
    assert(eval(p, m0, cond, t) == give(n, truth(!r.ok))) by {
        broadcast use group_steps;

        reveal(apply);
    }
    let gap = "\n        "@;
    let s1 = YulStmt::Do(op3(Op::Returndatacopy, num("0"@), num("0"@), op0(Op::Returndatasize)));
    let s2 = YulStmt::Do(op2(Op::Revert, num("0"@), op0(Op::Returndatasize)));
    let k = n.answer.len() as int;
    let mem = put_bytes(n.mem, 0, cut_bytes(n.answer, 0, k));
    let n1 = Machine { mem, ..n };
    let c1 = line(none(), gap, s1);
    let c2 = line(c1, gap, s2);
    assert(run(p, n, c1, t) == (n1, End::Next)) by {
        broadcast use group_steps;

        reveal(apply);
    }
    assert(bytes_at(mem, 0, k) =~= n.answer);
    assert(run(p, n, c2, t) == (n1, End::Revert(n.answer))) by {
        broadcast use group_steps;

        reveal(apply);
    }
    let b = tail(c2, "\n    "@);
    lemma_run_tail(p, n, c2, "\n    "@, t);
    let st = YulStmt::If(cond, b);
    assert(exec(p, m0, st, t) == (if r.ok {
        (n, End::Next)
    } else {
        (closed(n, n1), End::Revert(r.data))
    })) by {
        broadcast use group_steps;

    }
    broadcast use group_steps;

}

/// `gum_create` makes a contract from the code behind the pointer, with the value. Where that
/// fails, it reverts with exactly what came back; elsewhere it gives the address.
pub proof fn law_create(p: Map<Seq<char>, YulFn>, m: Machine, vs: Seq<int>, d: nat, size: int)
    requires
        holds(p, gum_create_fn()),
        has_bubble(p),
        d > 1,
        vs.len() == 2,
        m.replies[m.sent.len()].made != 0,
        forall|n: Machine|
            n.mem == m.mem ==> #[trigger] called(p, n, "gum_str_len"@, seq![vs[0]], (d - 1) as nat)
                == give(n, size),
    ensures
        gum_create_src() == fn_text(gum_create_fn()) + "\n"@,
        ({
            let o = called(p, m, "gum_create"@, vs, d);
            let r = m.replies[m.sent.len()];
            let s = Sent {
                to: 0,
                value: vs[1],
                data: bytes_at(m.mem, wrap(vs[0] + 32), size),
            };
            &&& o.m.sent == m.sent.push(s)
            &&& r.ok ==> o == give(send(m, s), r.made)
            &&& !r.ok ==> o.end == End::Revert(r.data)
        }),
{
    lemma_gum_create_text();
    lemma_numbers();
    let f = gum_create_fn();
    let t = (d - 1) as nat;
    let m0 = Machine { vars: entry_vars(f, vs), ..m };
    assert(m0.vars.contains_key("codeptr"@) && m0.vars["codeptr"@] == vs[0]
        && m0.vars.contains_key("value"@) && m0.vars["value"@] == vs[1]) by {
        reveal_strlit("codeptr");
        reveal_strlit("value");
        assert(f.params[0].len() != f.params[1].len());
        lemma_entry(f, vs);
        assert(f.params[0] == "codeptr"@ && f.params[1] == "value"@);
    }
    let r = m.replies[m.sent.len()];
    let s = Sent { to: 0, value: vs[1], data: bytes_at(m.mem, wrap(vs[0] + 32), size) };
    let n = send(m0, s);
    let v = if r.ok {
        r.made
    } else {
        0
    };
    let e = op3(
        Op::Create,
        var("value"@),
        op2(Op::Add, var("codeptr"@), num("32"@)),
        own1("gum_str_len"@, var("codeptr"@)),
    );
    assert(called(p, m0, "gum_str_len"@, seq![vs[0]], t) == give(m0, size));
    assert(eval(p, m0, e, t) == give(n, v)) by {
        broadcast use group_steps;

        reveal(apply);
    }
    let gap = "\n    "@;
    let c1 = line(none(), gap, YulStmt::Put("addr"@, e));
    let n1 = Machine { vars: n.vars.insert("addr"@, v), ..n };
    assert(run(p, m0, c1, t) == (n1, End::Next)) by {
        broadcast use group_steps;

    }
    law_bubble_revert(p, n1, t);
    let cond = op1(Op::Iszero, var("addr"@));
    assert(eval(p, n1, cond, t) == give(n1, truth(v == 0))) by {
        broadcast use group_steps;

        reveal(apply);
    }
    broadcast use group_steps;

}

/// The elements of a dynamic array begin at the hash of the slot that holds its length.
pub proof fn law_array_data(p: Map<Seq<char>, YulFn>, m: Machine, vs: Seq<int>, d: nat)
    requires
        holds(p, arr_data_base_fn()),
        d > 0,
        vs.len() == 1,
        is_word(vs[0]),
    ensures
        arr_data_base_src() == fn_text(arr_data_base_fn()) + "\n"@,
        ({
            let o = called(p, m, "arr_data_base"@, vs, d);
            &&& o.end == End::Next
            &&& o.v == from_bytes(keccak256(word_bytes(vs[0])))
            &&& o.m.store == m.store
            &&& o.m.temp == m.temp
            &&& o.m.vars == m.vars
        }),
{
    lemma_arr_data_base_text();
    lemma_numbers();
    let f = arr_data_base_fn();
    let t = (d - 1) as nat;
    let m0 = Machine { vars: entry_vars(f, vs), ..m };
    assert(m0.vars.contains_key("len_slot"@) && m0.vars["len_slot"@] == vs[0]) by {
        lemma_entry(f, vs);
        assert(f.params[0] == "len_slot"@);
    }
    let mem = put_bytes(m.mem, 0, word_bytes(vs[0]));
    let m1 = Machine { mem, ..m0 };
    let gap = "\n    "@;
    let c1 = line(none(), gap, YulStmt::Do(op2(Op::Mstore, num("0"@), var("len_slot"@))));
    assert(run(p, m0, c1, t) == (m1, End::Next)) by {
        broadcast use group_steps;

        reveal(apply);
    }
    assert(bytes_at(mem, 0, 32) =~= word_bytes(vs[0])) by {
        broadcast use lemma_bytes_len;

    }
    broadcast use group_steps;

    reveal(apply);
}

} // verus!
