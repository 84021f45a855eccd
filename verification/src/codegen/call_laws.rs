//! What the wrapper of a call does: a callee's revert is passed on, and its answer decoded.
use crate::ast::TypeV;
use crate::codegen::helpers::gum_bubble_revert_src;
use crate::codegen::tr_blob::blob_spec;
use crate::codegen::tr_extcall::{
    decode_wide_spec, extcall_return_src_spec, extcall_wrapper_src_spec, method_return_spec,
    method_selector_spec, numbered, passed_types,
};
use crate::codegen::translator::{EnvV, StV};
use crate::codegen::word::{from_bytes, truth, wrap};
use crate::codegen::yul_num::lemma_numbers;
use crate::codegen::yul_run::{
    apply, bytes_at, called, cut_bytes, entry_vars, eval, give, group_steps, law_code_follows,
    put_bytes, run, send, End, Machine, Sent,
};
use crate::codegen::yul_text::{
    at, fn_head, lemma_at_add, lemma_at_fn, lemma_at_if, lemma_at_line, lemma_at_nothing,
    lemma_at_whole, lemma_joined,
};
use crate::codegen::yul_tree::{
    both, code_text, expr_text, fn_text, group_texts, law_code_joins, line, none, num, op0, op1,
    op2, op3, op7, own0, own1, parts_text, stmt_text, tail, var, Code, Op, YulFn, YulStmt,
};
use crate::text::join_spec;
use vstd::prelude::*;

verus! {

pub open spec fn gum_bubble_revert_fn() -> YulFn {
    YulFn {
        name: "gum_bubble_revert"@,
        params: Seq::empty(),
        rets: Seq::empty(),
        body: tail(line(line(none(), "\n    "@, YulStmt::Do(op3(Op::Returndatacopy, num("0"@), num("0"@), op0(Op::Returndatasize)))), "\n    "@, YulStmt::Do(op2(Op::Revert, num("0"@), op0(Op::Returndatasize)))), "\n"@),
    }
}

proof fn lemma_gum_bubble_revert_cuts()
    ensures
        at("function gum_bubble_revert() {\n    returndatacopy(0, 0, returndatasize())\n    revert(0, returndatasize())\n}\n"@, 0, 30, "function gum_bubble_revert() {"@),
        at("function gum_bubble_revert() {\n    returndatacopy(0, 0, returndatasize())\n    revert(0, returndatasize())\n}\n"@, 35, 73, "returndatacopy(0, 0, returndatasize())"@),
        at("function gum_bubble_revert() {\n    returndatacopy(0, 0, returndatasize())\n    revert(0, returndatasize())\n}\n"@, 30, 35, "\n    "@),
        at("function gum_bubble_revert() {\n    returndatacopy(0, 0, returndatasize())\n    revert(0, returndatasize())\n}\n"@, 78, 105, "revert(0, returndatasize())"@),
        at("function gum_bubble_revert() {\n    returndatacopy(0, 0, returndatasize())\n    revert(0, returndatasize())\n}\n"@, 73, 78, "\n    "@),
        at("function gum_bubble_revert() {\n    returndatacopy(0, 0, returndatasize())\n    revert(0, returndatasize())\n}\n"@, 105, 106, "\n"@),
        at("function gum_bubble_revert() {\n    returndatacopy(0, 0, returndatasize())\n    revert(0, returndatasize())\n}\n"@, 106, 107, "}"@),
        at("function gum_bubble_revert() {\n    returndatacopy(0, 0, returndatasize())\n    revert(0, returndatasize())\n}\n"@, 107, 108, "\n"@),
{
    let l0 = "function gum_bubble_revert() {\n    returndatacopy(0, 0, returndatasize())\n    revert(0, returndatasize())\n}\n"@;
    reveal_strlit("function gum_bubble_revert() {\n    returndatacopy(0, 0, returndatasize())\n    revert(0, returndatasize())\n}\n");
    reveal_strlit("function gum_bubble_revert() {");
    reveal_strlit("returndatacopy(0, 0, returndatasize())");
    reveal_strlit("\n    ");
    reveal_strlit("revert(0, returndatasize())");
    reveal_strlit("\n");
    reveal_strlit("}");
    assert(l0.subrange(0, 30) =~= "function gum_bubble_revert() {"@);
    assert(l0.subrange(35, 73) =~= "returndatacopy(0, 0, returndatasize())"@);
    assert(l0.subrange(30, 35) =~= "\n    "@);
    assert(l0.subrange(78, 105) =~= "revert(0, returndatasize())"@);
    assert(l0.subrange(73, 78) =~= "\n    "@);
    assert(l0.subrange(105, 106) =~= "\n"@);
    assert(l0.subrange(106, 107) =~= "}"@);
    assert(l0.subrange(107, 108) =~= "\n"@);
}

proof fn lemma_gum_bubble_revert_pieces()
    ensures
        fn_head(gum_bubble_revert_fn()) == "function gum_bubble_revert() {"@,
        stmt_text(YulStmt::Do(op3(Op::Returndatacopy, num("0"@), num("0"@), op0(Op::Returndatasize)))) == "returndatacopy(0, 0, returndatasize())"@,
        stmt_text(YulStmt::Do(op2(Op::Revert, num("0"@), op0(Op::Returndatasize)))) == "revert(0, returndatasize())"@,
{
    lemma_joined(Seq::empty(), Seq::empty(), Seq::empty(), Seq::empty(), Seq::empty());
    assert(fn_head(gum_bubble_revert_fn()) =~= "function gum_bubble_revert() {"@) by {
        broadcast use group_texts;

        reveal_strlit(" {");
        reveal_strlit("(");
        reveal_strlit(")");
        reveal_strlit("function ");
        reveal_strlit("function gum_bubble_revert() {");
        reveal_strlit("gum_bubble_revert");
    }
    assert(stmt_text(YulStmt::Do(op3(Op::Returndatacopy, num("0"@), num("0"@), op0(Op::Returndatasize)))) =~= "returndatacopy(0, 0, returndatasize())"@) by {
        broadcast use group_texts;

        reveal_strlit("(");
        reveal_strlit(")");
        reveal_strlit(", ");
        reveal_strlit("0");
        reveal_strlit("returndatacopy");
        reveal_strlit("returndatacopy(0, 0, returndatasize())");
        reveal_strlit("returndatasize");
    }
    assert(stmt_text(YulStmt::Do(op2(Op::Revert, num("0"@), op0(Op::Returndatasize)))) =~= "revert(0, returndatasize())"@) by {
        broadcast use group_texts;

        reveal_strlit("(");
        reveal_strlit(")");
        reveal_strlit(", ");
        reveal_strlit("0");
        reveal_strlit("returndatasize");
        reveal_strlit("revert");
        reveal_strlit("revert(0, returndatasize())");
    }
}

/// The text of `gum_bubble_revert` is that of the function that it stands for.
pub proof fn lemma_gum_bubble_revert_text()
    ensures
        gum_bubble_revert_src() == fn_text(gum_bubble_revert_fn()) + "\n"@,
{
    let l = gum_bubble_revert_src();
    let l0 = "function gum_bubble_revert() {\n    returndatacopy(0, 0, returndatasize())\n    revert(0, returndatasize())\n}\n"@;
    assert(l0.len() == 108) by {
        reveal_strlit("function gum_bubble_revert() {\n    returndatacopy(0, 0, returndatasize())\n    revert(0, returndatasize())\n}\n");
    }
    lemma_gum_bubble_revert_cuts();
    lemma_gum_bubble_revert_pieces();
    let f0 = gum_bubble_revert_fn();
    lemma_at_nothing(l, 30);
    let k1 = none();
    let s2 = YulStmt::Do(op3(Op::Returndatacopy, num("0"@), num("0"@), op0(Op::Returndatasize)));
    lemma_at_line(l, 30, 30, 35, 73, k1, "\n    "@, s2);
    let k3 = line(k1, "\n    "@, s2);
    let s4 = YulStmt::Do(op2(Op::Revert, num("0"@), op0(Op::Returndatasize)));
    lemma_at_line(l, 30, 73, 78, 105, k3, "\n    "@, s4);
    let k5 = line(k3, "\n    "@, s4);
    let k6 = tail(k5, "\n"@);
    assert(f0.body == k6);
    lemma_at_fn(l, 0, 30, 105, 106, f0);
    lemma_at_add(l, 0, 107, 108, fn_text(f0), "\n"@);
    lemma_at_whole(l, fn_text(f0) + "\n"@);
}

pub open spec fn call_room() -> Code {
    tail(line(none(), "    "@, YulStmt::Let("ptr"@, own1("allocate_memory"@, op2(Op::Add, num("4"@), var("alen"@))))), "\n"@)
}

proof fn lemma_call_room_cuts()
    ensures
        at("    let ptr := allocate_memory(add(4, alen))\n"@, 4, 44, "let ptr := allocate_memory(add(4, alen))"@),
        at("    let ptr := allocate_memory(add(4, alen))\n"@, 0, 4, "    "@),
        at("    let ptr := allocate_memory(add(4, alen))\n"@, 44, 45, "\n"@),
{
    let l0 = "    let ptr := allocate_memory(add(4, alen))\n"@;
    reveal_strlit("    let ptr := allocate_memory(add(4, alen))\n");
    reveal_strlit("let ptr := allocate_memory(add(4, alen))");
    reveal_strlit("    ");
    reveal_strlit("\n");
    assert(l0.subrange(4, 44) =~= "let ptr := allocate_memory(add(4, alen))"@);
    assert(l0.subrange(0, 4) =~= "    "@);
    assert(l0.subrange(44, 45) =~= "\n"@);
}

proof fn lemma_call_room_pieces()
    ensures
        stmt_text(YulStmt::Let("ptr"@, own1("allocate_memory"@, op2(Op::Add, num("4"@), var("alen"@))))) == "let ptr := allocate_memory(add(4, alen))"@,
{
    assert(stmt_text(YulStmt::Let("ptr"@, own1("allocate_memory"@, op2(Op::Add, num("4"@), var("alen"@))))) =~= "let ptr := allocate_memory(add(4, alen))"@) by {
        broadcast use group_texts;

        reveal_strlit(" := ");
        reveal_strlit("(");
        reveal_strlit(")");
        reveal_strlit(", ");
        reveal_strlit("4");
        reveal_strlit("add");
        reveal_strlit("alen");
        reveal_strlit("allocate_memory");
        reveal_strlit("let ");
        reveal_strlit("let ptr := allocate_memory(add(4, alen))");
        reveal_strlit("ptr");
    }
}

pub proof fn lemma_call_room()
    ensures
        code_text(call_room()) == "    let ptr := allocate_memory(add(4, alen))\n"@,
{
    let l = "    let ptr := allocate_memory(add(4, alen))\n"@;
    let l0 = l;
    assert(l0.len() == 45) by {
        reveal_strlit("    let ptr := allocate_memory(add(4, alen))\n");
    }
    lemma_call_room_cuts();
    lemma_call_room_pieces();
    lemma_at_nothing(l, 0);
    let k1 = none();
    let s2 = YulStmt::Let("ptr"@, own1("allocate_memory"@, op2(Op::Add, num("4"@), var("alen"@))));
    lemma_at_line(l, 0, 0, 4, 44, k1, "    "@, s2);
    let k3 = line(k1, "    "@, s2);
    let k4 = tail(k3, "\n"@);
    assert(k4 == call_room());
    lemma_at_add(l, 0, 44, 45, parts_text(k4.parts, k4.parts.len()), "\n"@);
    lemma_at_whole(l, code_text(k4));
}

pub open spec fn call_blob() -> Code {
    tail(line(none(), "    "@, YulStmt::Let("blob"@, op2(Op::Add, var("ptr"@), num("4"@)))), "\n"@)
}

proof fn lemma_call_blob_cuts()
    ensures
        at("    let blob := add(ptr, 4)\n"@, 4, 27, "let blob := add(ptr, 4)"@),
        at("    let blob := add(ptr, 4)\n"@, 0, 4, "    "@),
        at("    let blob := add(ptr, 4)\n"@, 27, 28, "\n"@),
{
    let l0 = "    let blob := add(ptr, 4)\n"@;
    reveal_strlit("    let blob := add(ptr, 4)\n");
    reveal_strlit("let blob := add(ptr, 4)");
    reveal_strlit("    ");
    reveal_strlit("\n");
    assert(l0.subrange(4, 27) =~= "let blob := add(ptr, 4)"@);
    assert(l0.subrange(0, 4) =~= "    "@);
    assert(l0.subrange(27, 28) =~= "\n"@);
}

proof fn lemma_call_blob_pieces()
    ensures
        stmt_text(YulStmt::Let("blob"@, op2(Op::Add, var("ptr"@), num("4"@)))) == "let blob := add(ptr, 4)"@,
{
    assert(stmt_text(YulStmt::Let("blob"@, op2(Op::Add, var("ptr"@), num("4"@)))) =~= "let blob := add(ptr, 4)"@) by {
        broadcast use group_texts;

        reveal_strlit(" := ");
        reveal_strlit("(");
        reveal_strlit(")");
        reveal_strlit(", ");
        reveal_strlit("4");
        reveal_strlit("add");
        reveal_strlit("blob");
        reveal_strlit("let ");
        reveal_strlit("let blob := add(ptr, 4)");
        reveal_strlit("ptr");
    }
}

pub proof fn lemma_call_blob()
    ensures
        code_text(call_blob()) == "    let blob := add(ptr, 4)\n"@,
{
    let l = "    let blob := add(ptr, 4)\n"@;
    let l0 = l;
    assert(l0.len() == 28) by {
        reveal_strlit("    let blob := add(ptr, 4)\n");
    }
    lemma_call_blob_cuts();
    lemma_call_blob_pieces();
    lemma_at_nothing(l, 0);
    let k1 = none();
    let s2 = YulStmt::Let("blob"@, op2(Op::Add, var("ptr"@), num("4"@)));
    lemma_at_line(l, 0, 0, 4, 27, k1, "    "@, s2);
    let k3 = line(k1, "    "@, s2);
    let k4 = tail(k3, "\n"@);
    assert(k4 == call_blob());
    lemma_at_add(l, 0, 27, 28, parts_text(k4.parts, k4.parts.len()), "\n"@);
    lemma_at_whole(l, code_text(k4));
}

pub open spec fn call_made() -> Code {
    tail(line(none(), "    "@, YulStmt::Let("ok"@, op7(Op::Call, op0(Op::Gas), var("target"@), num("0"@), var("ptr"@), op2(Op::Add, num("4"@), var("alen"@)), num("0"@), num("0"@)))), "\n"@)
}

proof fn lemma_call_made_cuts()
    ensures
        at("    let ok := call(gas(), target, 0, ptr, add(4, alen), 0, 0)\n"@, 4, 61, "let ok := call(gas(), target, 0, ptr, add(4, alen), 0, 0)"@),
        at("    let ok := call(gas(), target, 0, ptr, add(4, alen), 0, 0)\n"@, 0, 4, "    "@),
        at("    let ok := call(gas(), target, 0, ptr, add(4, alen), 0, 0)\n"@, 61, 62, "\n"@),
{
    let l0 = "    let ok := call(gas(), target, 0, ptr, add(4, alen), 0, 0)\n"@;
    reveal_strlit("    let ok := call(gas(), target, 0, ptr, add(4, alen), 0, 0)\n");
    reveal_strlit("let ok := call(gas(), target, 0, ptr, add(4, alen), 0, 0)");
    reveal_strlit("    ");
    reveal_strlit("\n");
    assert(l0.subrange(4, 61) =~= "let ok := call(gas(), target, 0, ptr, add(4, alen), 0, 0)"@);
    assert(l0.subrange(0, 4) =~= "    "@);
    assert(l0.subrange(61, 62) =~= "\n"@);
}

proof fn lemma_call_made_pieces()
    ensures
        stmt_text(YulStmt::Let("ok"@, op7(Op::Call, op0(Op::Gas), var("target"@), num("0"@), var("ptr"@), op2(Op::Add, num("4"@), var("alen"@)), num("0"@), num("0"@)))) == "let ok := call(gas(), target, 0, ptr, add(4, alen), 0, 0)"@,
{
    assert(stmt_text(YulStmt::Let("ok"@, op7(Op::Call, op0(Op::Gas), var("target"@), num("0"@), var("ptr"@), op2(Op::Add, num("4"@), var("alen"@)), num("0"@), num("0"@)))) =~= "let ok := call(gas(), target, 0, ptr, add(4, alen), 0, 0)"@) by {
        broadcast use group_texts;

        reveal_strlit(" := ");
        reveal_strlit("(");
        reveal_strlit(")");
        reveal_strlit(", ");
        reveal_strlit("0");
        reveal_strlit("4");
        reveal_strlit("add");
        reveal_strlit("alen");
        reveal_strlit("call");
        reveal_strlit("gas");
        reveal_strlit("let ");
        reveal_strlit("let ok := call(gas(), target, 0, ptr, add(4, alen), 0, 0)");
        reveal_strlit("ok");
        reveal_strlit("ptr");
        reveal_strlit("target");
    }
}

pub proof fn lemma_call_made()
    ensures
        code_text(call_made()) == "    let ok := call(gas(), target, 0, ptr, add(4, alen), 0, 0)\n"@,
{
    let l = "    let ok := call(gas(), target, 0, ptr, add(4, alen), 0, 0)\n"@;
    let l0 = l;
    assert(l0.len() == 62) by {
        reveal_strlit("    let ok := call(gas(), target, 0, ptr, add(4, alen), 0, 0)\n");
    }
    lemma_call_made_cuts();
    lemma_call_made_pieces();
    lemma_at_nothing(l, 0);
    let k1 = none();
    let s2 = YulStmt::Let("ok"@, op7(Op::Call, op0(Op::Gas), var("target"@), num("0"@), var("ptr"@), op2(Op::Add, num("4"@), var("alen"@)), num("0"@), num("0"@)));
    lemma_at_line(l, 0, 0, 4, 61, k1, "    "@, s2);
    let k3 = line(k1, "    "@, s2);
    let k4 = tail(k3, "\n"@);
    assert(k4 == call_made());
    lemma_at_add(l, 0, 61, 62, parts_text(k4.parts, k4.parts.len()), "\n"@);
    lemma_at_whole(l, code_text(k4));
}

pub open spec fn call_failed() -> Code {
    tail(line(none(), "    "@, YulStmt::If(op1(Op::Iszero, var("ok"@)), tail(line(none(), " "@, YulStmt::Do(own0("gum_bubble_revert"@))), " "@))), "\n"@)
}

proof fn lemma_call_failed_cuts()
    ensures
        at("    if iszero(ok) { gum_bubble_revert() }\n"@, 4, 19, "if iszero(ok) {"@),
        at("    if iszero(ok) { gum_bubble_revert() }\n"@, 20, 39, "gum_bubble_revert()"@),
        at("    if iszero(ok) { gum_bubble_revert() }\n"@, 19, 20, " "@),
        at("    if iszero(ok) { gum_bubble_revert() }\n"@, 39, 40, " "@),
        at("    if iszero(ok) { gum_bubble_revert() }\n"@, 40, 41, "}"@),
        at("    if iszero(ok) { gum_bubble_revert() }\n"@, 0, 4, "    "@),
        at("    if iszero(ok) { gum_bubble_revert() }\n"@, 41, 42, "\n"@),
{
    let l0 = "    if iszero(ok) { gum_bubble_revert() }\n"@;
    reveal_strlit("    if iszero(ok) { gum_bubble_revert() }\n");
    reveal_strlit("if iszero(ok) {");
    reveal_strlit("gum_bubble_revert()");
    reveal_strlit(" ");
    reveal_strlit("}");
    reveal_strlit("    ");
    reveal_strlit("\n");
    assert(l0.subrange(4, 19) =~= "if iszero(ok) {"@);
    assert(l0.subrange(20, 39) =~= "gum_bubble_revert()"@);
    assert(l0.subrange(19, 20) =~= " "@);
    assert(l0.subrange(39, 40) =~= " "@);
    assert(l0.subrange(40, 41) =~= "}"@);
    assert(l0.subrange(0, 4) =~= "    "@);
    assert(l0.subrange(41, 42) =~= "\n"@);
}

proof fn lemma_call_failed_pieces()
    ensures
        "if "@ + expr_text(op1(Op::Iszero, var("ok"@))) + " {"@ == "if iszero(ok) {"@,
        stmt_text(YulStmt::Do(own0("gum_bubble_revert"@))) == "gum_bubble_revert()"@,
{
    assert("if "@ + expr_text(op1(Op::Iszero, var("ok"@))) + " {"@ =~= "if iszero(ok) {"@) by {
        broadcast use group_texts;

        reveal_strlit(" {");
        reveal_strlit("(");
        reveal_strlit(")");
        reveal_strlit("if ");
        reveal_strlit("if iszero(ok) {");
        reveal_strlit("iszero");
        reveal_strlit("ok");
    }
    assert(stmt_text(YulStmt::Do(own0("gum_bubble_revert"@))) =~= "gum_bubble_revert()"@) by {
        broadcast use group_texts;

        reveal_strlit("(");
        reveal_strlit(")");
        reveal_strlit("gum_bubble_revert");
        reveal_strlit("gum_bubble_revert()");
    }
}

pub proof fn lemma_call_failed()
    ensures
        code_text(call_failed()) == "    if iszero(ok) { gum_bubble_revert() }\n"@,
{
    let l = "    if iszero(ok) { gum_bubble_revert() }\n"@;
    let l0 = l;
    assert(l0.len() == 42) by {
        reveal_strlit("    if iszero(ok) { gum_bubble_revert() }\n");
    }
    lemma_call_failed_cuts();
    lemma_call_failed_pieces();
    lemma_at_nothing(l, 0);
    let k1 = none();
    let c2 = op1(Op::Iszero, var("ok"@));
    lemma_at_nothing(l, 19);
    let k3 = none();
    let s4 = YulStmt::Do(own0("gum_bubble_revert"@));
    lemma_at_line(l, 19, 19, 20, 39, k3, " "@, s4);
    let k5 = line(k3, " "@, s4);
    let k6 = tail(k5, " "@);
    let s7 = YulStmt::If(c2, k6);
    lemma_at_if(l, 4, 19, 39, 40, c2, k6);
    lemma_at_line(l, 0, 0, 4, 41, k1, "    "@, s7);
    let k8 = line(k1, "    "@, s7);
    let k9 = tail(k8, "\n"@);
    assert(k9 == call_failed());
    lemma_at_add(l, 0, 41, 42, parts_text(k9.parts, k9.parts.len()), "\n"@);
    lemma_at_whole(l, code_text(k9));
}

pub open spec fn word_decoded() -> Code {
    tail(line(line(line(none(), "    "@, YulStmt::If(op2(Op::Lt, op0(Op::Returndatasize), num("32"@)), tail(line(none(), " "@, YulStmt::Do(op2(Op::Revert, num("0"@), num("0"@)))), " "@))), "\n    "@, YulStmt::Do(op3(Op::Returndatacopy, num("0"@), num("0"@), num("32"@)))), "\n    "@, YulStmt::Put("result"@, op1(Op::Mload, num("0"@)))), "\n"@)
}

proof fn lemma_word_decoded_cuts()
    ensures
        at("    if lt(returndatasize(), 32) { revert(0, 0) }\n    returndatacopy(0, 0, 32)\n    result := mload(0)\n"@, 4, 33, "if lt(returndatasize(), 32) {"@),
        at("    if lt(returndatasize(), 32) { revert(0, 0) }\n    returndatacopy(0, 0, 32)\n    result := mload(0)\n"@, 34, 46, "revert(0, 0)"@),
        at("    if lt(returndatasize(), 32) { revert(0, 0) }\n    returndatacopy(0, 0, 32)\n    result := mload(0)\n"@, 33, 34, " "@),
        at("    if lt(returndatasize(), 32) { revert(0, 0) }\n    returndatacopy(0, 0, 32)\n    result := mload(0)\n"@, 46, 47, " "@),
        at("    if lt(returndatasize(), 32) { revert(0, 0) }\n    returndatacopy(0, 0, 32)\n    result := mload(0)\n"@, 47, 48, "}"@),
        at("    if lt(returndatasize(), 32) { revert(0, 0) }\n    returndatacopy(0, 0, 32)\n    result := mload(0)\n"@, 0, 4, "    "@),
        at("    if lt(returndatasize(), 32) { revert(0, 0) }\n    returndatacopy(0, 0, 32)\n    result := mload(0)\n"@, 53, 77, "returndatacopy(0, 0, 32)"@),
        at("    if lt(returndatasize(), 32) { revert(0, 0) }\n    returndatacopy(0, 0, 32)\n    result := mload(0)\n"@, 48, 53, "\n    "@),
        at("    if lt(returndatasize(), 32) { revert(0, 0) }\n    returndatacopy(0, 0, 32)\n    result := mload(0)\n"@, 82, 100, "result := mload(0)"@),
        at("    if lt(returndatasize(), 32) { revert(0, 0) }\n    returndatacopy(0, 0, 32)\n    result := mload(0)\n"@, 77, 82, "\n    "@),
        at("    if lt(returndatasize(), 32) { revert(0, 0) }\n    returndatacopy(0, 0, 32)\n    result := mload(0)\n"@, 100, 101, "\n"@),
{
    let l0 = "    if lt(returndatasize(), 32) { revert(0, 0) }\n    returndatacopy(0, 0, 32)\n    result := mload(0)\n"@;
    reveal_strlit("    if lt(returndatasize(), 32) { revert(0, 0) }\n    returndatacopy(0, 0, 32)\n    result := mload(0)\n");
    reveal_strlit("if lt(returndatasize(), 32) {");
    reveal_strlit("revert(0, 0)");
    reveal_strlit(" ");
    reveal_strlit("}");
    reveal_strlit("    ");
    reveal_strlit("returndatacopy(0, 0, 32)");
    reveal_strlit("\n    ");
    reveal_strlit("result := mload(0)");
    reveal_strlit("\n");
    assert(l0.subrange(4, 33) =~= "if lt(returndatasize(), 32) {"@);
    assert(l0.subrange(34, 46) =~= "revert(0, 0)"@);
    assert(l0.subrange(33, 34) =~= " "@);
    assert(l0.subrange(46, 47) =~= " "@);
    assert(l0.subrange(47, 48) =~= "}"@);
    assert(l0.subrange(0, 4) =~= "    "@);
    assert(l0.subrange(53, 77) =~= "returndatacopy(0, 0, 32)"@);
    assert(l0.subrange(48, 53) =~= "\n    "@);
    assert(l0.subrange(82, 100) =~= "result := mload(0)"@);
    assert(l0.subrange(77, 82) =~= "\n    "@);
    assert(l0.subrange(100, 101) =~= "\n"@);
}

proof fn lemma_word_decoded_pieces()
    ensures
        "if "@ + expr_text(op2(Op::Lt, op0(Op::Returndatasize), num("32"@))) + " {"@ == "if lt(returndatasize(), 32) {"@,
        stmt_text(YulStmt::Do(op2(Op::Revert, num("0"@), num("0"@)))) == "revert(0, 0)"@,
        stmt_text(YulStmt::Do(op3(Op::Returndatacopy, num("0"@), num("0"@), num("32"@)))) == "returndatacopy(0, 0, 32)"@,
        stmt_text(YulStmt::Put("result"@, op1(Op::Mload, num("0"@)))) == "result := mload(0)"@,
{
    assert("if "@ + expr_text(op2(Op::Lt, op0(Op::Returndatasize), num("32"@))) + " {"@ =~= "if lt(returndatasize(), 32) {"@) by {
        broadcast use group_texts;

        reveal_strlit(" {");
        reveal_strlit("(");
        reveal_strlit(")");
        reveal_strlit(", ");
        reveal_strlit("32");
        reveal_strlit("if ");
        reveal_strlit("if lt(returndatasize(), 32) {");
        reveal_strlit("lt");
        reveal_strlit("returndatasize");
    }
    assert(stmt_text(YulStmt::Do(op2(Op::Revert, num("0"@), num("0"@)))) =~= "revert(0, 0)"@) by {
        broadcast use group_texts;

        reveal_strlit("(");
        reveal_strlit(")");
        reveal_strlit(", ");
        reveal_strlit("0");
        reveal_strlit("revert");
        reveal_strlit("revert(0, 0)");
    }
    assert(stmt_text(YulStmt::Do(op3(Op::Returndatacopy, num("0"@), num("0"@), num("32"@)))) =~= "returndatacopy(0, 0, 32)"@) by {
        broadcast use group_texts;

        reveal_strlit("(");
        reveal_strlit(")");
        reveal_strlit(", ");
        reveal_strlit("0");
        reveal_strlit("32");
        reveal_strlit("returndatacopy");
        reveal_strlit("returndatacopy(0, 0, 32)");
    }
    assert(stmt_text(YulStmt::Put("result"@, op1(Op::Mload, num("0"@)))) =~= "result := mload(0)"@) by {
        broadcast use group_texts;

        reveal_strlit(" := ");
        reveal_strlit("(");
        reveal_strlit(")");
        reveal_strlit("0");
        reveal_strlit("mload");
        reveal_strlit("result");
        reveal_strlit("result := mload(0)");
    }
}

pub proof fn lemma_word_decoded()
    ensures
        code_text(word_decoded()) == "    if lt(returndatasize(), 32) { revert(0, 0) }\n    returndatacopy(0, 0, 32)\n    result := mload(0)\n"@,
{
    let l = "    if lt(returndatasize(), 32) { revert(0, 0) }\n    returndatacopy(0, 0, 32)\n    result := mload(0)\n"@;
    let l0 = l;
    assert(l0.len() == 101) by {
        reveal_strlit("    if lt(returndatasize(), 32) { revert(0, 0) }\n    returndatacopy(0, 0, 32)\n    result := mload(0)\n");
    }
    lemma_word_decoded_cuts();
    lemma_word_decoded_pieces();
    lemma_at_nothing(l, 0);
    let k1 = none();
    let c2 = op2(Op::Lt, op0(Op::Returndatasize), num("32"@));
    lemma_at_nothing(l, 33);
    let k3 = none();
    let s4 = YulStmt::Do(op2(Op::Revert, num("0"@), num("0"@)));
    lemma_at_line(l, 33, 33, 34, 46, k3, " "@, s4);
    let k5 = line(k3, " "@, s4);
    let k6 = tail(k5, " "@);
    let s7 = YulStmt::If(c2, k6);
    lemma_at_if(l, 4, 33, 46, 47, c2, k6);
    lemma_at_line(l, 0, 0, 4, 48, k1, "    "@, s7);
    let k8 = line(k1, "    "@, s7);
    let s9 = YulStmt::Do(op3(Op::Returndatacopy, num("0"@), num("0"@), num("32"@)));
    lemma_at_line(l, 0, 48, 53, 77, k8, "\n    "@, s9);
    let k10 = line(k8, "\n    "@, s9);
    let s11 = YulStmt::Put("result"@, op1(Op::Mload, num("0"@)));
    lemma_at_line(l, 0, 77, 82, 100, k10, "\n    "@, s11);
    let k12 = line(k10, "\n    "@, s11);
    let k13 = tail(k12, "\n"@);
    assert(k13 == word_decoded());
    lemma_at_add(l, 0, 100, 101, parts_text(k13.parts, k13.parts.len()), "\n"@);
    lemma_at_whole(l, code_text(k13));
}


/// Whether a program has the function that passes a revert on.
pub open spec fn has_bubble(p: Map<Seq<char>, YulFn>) -> bool {
    p.contains_key("gum_bubble_revert"@) && p["gum_bubble_revert"@] == gum_bubble_revert_fn()
}

/// `gum_bubble_revert` reverts with exactly what the last call answered.
pub proof fn law_bubble_revert(p: Map<Seq<char>, YulFn>, m: Machine, d: nat)
    requires
        has_bubble(p),
        d > 0,
    ensures
        gum_bubble_revert_src() == fn_text(gum_bubble_revert_fn()) + "\n"@,
        called(p, m, "gum_bubble_revert"@, Seq::empty(), d).end == End::Revert(m.answer),
        called(p, m, "gum_bubble_revert"@, Seq::empty(), d).m.sent == m.sent,
{
    lemma_gum_bubble_revert_text();
    let f = gum_bubble_revert_fn();
    let b = (d - 1) as nat;
    let n = m.answer.len() as int;
    let m0 = Machine { vars: entry_vars(f, Seq::empty()), ..m };
    let mem = put_bytes(m.mem, 0, cut_bytes(m.answer, 0, n));
    let m1 = Machine { mem, ..m0 };
    let gap = "\n    "@;
    let s1 = YulStmt::Do(op3(Op::Returndatacopy, num("0"@), num("0"@), op0(Op::Returndatasize)));
    let s2 = YulStmt::Do(op2(Op::Revert, num("0"@), op0(Op::Returndatasize)));
    let c1 = line(none(), gap, s1);
    lemma_numbers();
    assert(run(p, m0, c1, b) == (m1, End::Next)) by {
        broadcast use group_steps;

        reveal(apply);
    }
    assert(bytes_at(mem, 0, n) =~= m.answer);
    assert(run(p, m0, line(c1, gap, s2), b) == (m1, End::Revert(m.answer))) by {
        broadcast use group_steps;

        reveal(apply);
    }
    assert(run(p, m0, f.body, b) == (m1, End::Revert(m.answer))) by {
        broadcast use group_steps;

    }
}

/// The statement that writes a selector before the arguments.
pub open spec fn selector_line(selector: Seq<char>) -> Code {
    tail(
        line(
            none(),
            "    "@,
            YulStmt::Do(op2(Op::Mstore, var("ptr"@), op2(Op::Shl, num("224"@), num(selector)))),
        ),
        "\n"@,
    )
}

proof fn lemma_selector_line(selector: Seq<char>)
    ensures
        code_text(selector_line(selector)) == "    mstore(ptr, shl(224, "@ + selector + "))\n"@,
{
    broadcast use group_texts;

    reveal_strlit("    mstore(ptr, shl(224, ");
    reveal_strlit("))\n");
    reveal_strlit("    ");
    reveal_strlit("mstore");
    reveal_strlit("(");
    reveal_strlit("ptr");
    reveal_strlit(", ");
    reveal_strlit("shl");
    reveal_strlit("224");
    reveal_strlit(")");
    reveal_strlit("\n");
    let head = "    "@ + "mstore"@ + "("@ + "ptr"@ + ", "@ + "shl"@ + "("@ + "224"@ + ", "@;
    assert("    mstore(ptr, shl(224, "@ =~= head);
    assert("))\n"@ =~= ")"@ + ")"@ + "\n"@);
    let e = op2(Op::Shl, num("224"@), num(selector));
    assert(expr_text(e) == "shl"@ + "("@ + ("224"@ + ", "@ + selector) + ")"@);
    let s = YulStmt::Do(op2(Op::Mstore, var("ptr"@), e));
    assert(stmt_text(s) == "mstore"@ + "("@ + ("ptr"@ + ", "@ + expr_text(e)) + ")"@);
    assert(code_text(selector_line(selector)) =~= Seq::<char>::empty() + "    "@ + stmt_text(s)
        + "\n"@);
    assert(code_text(selector_line(selector)) =~= head + selector + (")"@ + ")"@ + "\n"@));
}

/// What a wrapper does before it calls: the size of the arguments, room for them behind the
/// selector, and the arguments themselves.
pub open spec fn call_setup(size: Code, selector: Seq<char>, write: Code) -> Code {
    let nl = tail(none(), "\n"@);
    both(both(both(both(both(nl, size), call_room()), selector_line(selector)), call_blob()), write)
}

proof fn lemma_setup_text(size: Code, selector: Seq<char>, write: Code)
    ensures
        code_text(call_setup(size, selector, write)) == "\n"@ + code_text(size)
            + "    let ptr := allocate_memory(add(4, alen))\n    mstore(ptr, shl(224, "@ + selector
            + "))\n    let blob := add(ptr, 4)\n"@ + code_text(write),
{
    lemma_call_room();
    lemma_selector_line(selector);
    lemma_call_blob();
    let nl = tail(none(), "\n"@);
    assert(code_text(nl) =~= "\n"@);
    let c1 = both(nl, size);
    let c2 = both(c1, call_room());
    let c3 = both(c2, selector_line(selector));
    let c4 = both(c3, call_blob());
    law_code_joins(nl, size);
    law_code_joins(c1, call_room());
    law_code_joins(c2, selector_line(selector));
    law_code_joins(c3, call_blob());
    law_code_joins(c4, write);
    let l1 = "    let ptr := allocate_memory(add(4, alen))\n    mstore(ptr, shl(224, "@;
    let l2 = "))\n    let blob := add(ptr, 4)\n"@;
    assert(l1 =~= "    let ptr := allocate_memory(add(4, alen))\n"@ + "    mstore(ptr, shl(224, "@)
        by {
        reveal_strlit("    let ptr := allocate_memory(add(4, alen))\n    mstore(ptr, shl(224, ");
        reveal_strlit("    let ptr := allocate_memory(add(4, alen))\n");
        reveal_strlit("    mstore(ptr, shl(224, ");
    }
    assert(l2 =~= "))\n"@ + "    let blob := add(ptr, 4)\n"@) by {
        reveal_strlit("))\n    let blob := add(ptr, 4)\n");
        reveal_strlit("))\n");
        reveal_strlit("    let blob := add(ptr, 4)\n");
    }
    assert(code_text(call_setup(size, selector, write)) =~= "\n"@ + code_text(size) + l1 + selector
        + l2 + code_text(write));
}

/// A machine that is ready to call: where to, and what is sent.
pub open spec fn ready(m: Machine) -> bool {
    &&& m.vars.contains_key("target"@)
    &&& m.vars.contains_key("ptr"@)
    &&& m.vars.contains_key("alen"@)
    &&& m.told.contains_key(Op::Gas)
}

/// What a ready machine sends.
pub open spec fn outgoing(m: Machine) -> Sent {
    Sent {
        to: m.vars["target"@],
        value: 0,
        data: bytes_at(m.mem, m.vars["ptr"@], wrap(4 + m.vars["alen"@])),
    }
}

/// The machine behind the call.
pub open spec fn answered(m: Machine) -> Machine {
    let n = send(m, outgoing(m));
    Machine { vars: n.vars.insert("ok"@, truth(m.replies[m.sent.len()].ok)), ..n }
}

proof fn lemma_step_made(p: Map<Seq<char>, YulFn>, m: Machine, d: nat)
    requires
        ready(m),
    ensures
        run(p, m, call_made(), d) == (answered(m), End::Next),
{
    lemma_numbers();
    let e = op2(Op::Add, num("4"@), var("alen"@));
    let r = m.replies[m.sent.len()];
    let n = send(m, outgoing(m));
    assert(eval(p, m, e, d) == give(m, wrap(4 + m.vars["alen"@]))) by {
        broadcast use group_steps;

        reveal(apply);
    }
    assert(eval(p, m, op0(Op::Gas), d) == give(m, m.told[Op::Gas])) by {
        broadcast use group_steps;

        reveal(apply);
    }
    let c = op7(
        Op::Call,
        op0(Op::Gas),
        var("target"@),
        num("0"@),
        var("ptr"@),
        e,
        num("0"@),
        num("0"@),
    );
    assert(put_bytes(n.mem, 0, cut_bytes(r.data, 0, 0)) =~= n.mem);
    assert(eval(p, m, c, d) == give(n, truth(r.ok))) by {
        broadcast use group_steps;

        reveal(apply);
    }
    broadcast use group_steps;

}

proof fn lemma_step_failed(p: Map<Seq<char>, YulFn>, m: Machine, d: nat)
    requires
        m.vars.contains_key("ok"@),
        m.vars["ok"@] == 0 || m.vars["ok"@] == 1,
        has_bubble(p),
        d > 0,
    ensures
        m.vars["ok"@] == 1 ==> run(p, m, call_failed(), d) == (m, End::Next),
        m.vars["ok"@] == 0 ==> run(p, m, call_failed(), d).1 == End::Revert(m.answer)
            && run(p, m, call_failed(), d).0.sent == m.sent,
{
    law_bubble_revert(p, m, d);
    let c = op1(Op::Iszero, var("ok"@));
    assert(eval(p, m, c, d) == give(m, truth(m.vars["ok"@] == 0))) by {
        broadcast use group_steps;

        reveal(apply);
    }
    broadcast use group_steps;

}

/// What a wrapper with a given body does, outside a `try`: the code before the call runs;
/// the call hands over the selector and the arguments without value; where it fails, the
/// wrapper reverts with exactly what came back, and where it succeeds, no revert comes from
/// that, and the rest decodes what came back.
pub open spec fn passes_reverts_on(body: Code, setup: Code, decode: Code) -> bool {
    forall|p: Map<Seq<char>, YulFn>, m: Machine, d: nat|
        {
            let (k, end) = run(p, m, setup, d);
            let (after, fin) = #[trigger] run(p, m, body, d);
            has_bubble(p) && d > 0 && end == End::Next && ready(k) ==> {
                let r = k.replies[k.sent.len()];
                &&& !r.ok ==> fin == End::Revert(r.data) && after.sent == k.sent.push(outgoing(k))
                &&& r.ok ==> (after, fin) == run(p, answered(k), decode, d)
                &&& answered(k).answer == r.data
                &&& answered(k).sent == k.sent.push(outgoing(k))
            }
        }
}

proof fn lemma_passes_on(setup: Code, decode: Code)
    ensures
        passes_reverts_on(
            both(both(both(setup, call_made()), call_failed()), decode),
            setup,
            decode,
        ),
{
    let c1 = both(setup, call_made());
    let c2 = both(c1, call_failed());
    let body = both(c2, decode);
    assert forall|p: Map<Seq<char>, YulFn>, m: Machine, d: nat|
        {
            let (k, end) = run(p, m, setup, d);
            let (after, fin) = #[trigger] run(p, m, body, d);
            has_bubble(p) && d > 0 && end == End::Next && ready(k) ==> {
                let r = k.replies[k.sent.len()];
                &&& !r.ok ==> fin == End::Revert(r.data) && after.sent == k.sent.push(outgoing(k))
                &&& r.ok ==> (after, fin) == run(p, answered(k), decode, d)
                &&& answered(k).answer == r.data
                &&& answered(k).sent == k.sent.push(outgoing(k))
            }
        } by {
        let (k, end) = run(p, m, setup, d);
        if has_bubble(p) && d > 0 && end == End::Next && ready(k) {
            law_code_follows(p, m, setup, call_made(), d);
            law_code_follows(p, m, c1, call_failed(), d);
            law_code_follows(p, m, c2, decode, d);
            lemma_step_made(p, k, d);
            lemma_step_failed(p, answered(k), d);
        }
    }
}

proof fn lemma_join_first(x: Seq<char>, ys: Seq<Seq<char>>)
    ensures
        join_spec(seq![x] + ys, ", "@) == (if ys.len() == 0 {
            x
        } else {
            x + ", "@ + join_spec(ys, ", "@)
        }),
    decreases ys.len(),
{
    let all = seq![x] + ys;
    if ys.len() == 0 {
        assert(all =~= seq![x]);
    } else {
        lemma_join_first(x, ys.drop_last());
        assert(all.drop_last() =~= seq![x] + ys.drop_last());
        assert(all.last() == ys.last());
        if ys.len() == 1 {
            assert(join_spec(ys, ", "@) == ys[0]);
        }
        assert(join_spec(all, ", "@) =~= x + ", "@ + join_spec(ys, ", "@));
    }
}

/// The name of the wrapper of a method.
pub open spec fn wrapper_name(iface_name: Seq<char>, method: Seq<char>) -> Seq<char> {
    "__extcall_"@ + iface_name + "_"@ + method
}

/// The state in which the wrapper of a method is made, and the code of its parts: the size
/// of the arguments, the arguments, and the answer.
pub open spec fn wrapper_parts(
    g: EnvV,
    st: StV,
    iface_name: Seq<char>,
    method: Seq<char>,
    n: nat,
) -> (StV, Seq<char>, Seq<char>, Seq<char>) {
    let (st, decode) = extcall_return_src_spec(g, st, method_return_spec(g, iface_name, method));
    let (st, pair) = blob_spec(g, st, passed_types(g, iface_name, method, n));
    (st, pair.0, pair.1, decode)
}

/// The text of a wrapper up to its body.
pub open spec fn wrapper_head(
    g: EnvV,
    iface_name: Seq<char>,
    method: Seq<char>,
    n: nat,
) -> Seq<char> {
    "function "@ + wrapper_name(iface_name, method) + "(target"@ + (if n == 0 {
        ""@
    } else {
        ", "@
    }) + join_spec(numbered("a"@, n), ", "@) + ")"@ + (if method_return_spec(
        g,
        iface_name,
        method,
    ) is Some {
        " -> result"@
    } else {
        ""@
    })
}

/// The text of the body of a wrapper, between the braces.
pub open spec fn wrapper_inner(
    size: Seq<char>,
    selector: Seq<char>,
    write: Seq<char>,
    decode: Seq<char>,
) -> Seq<char> {
    size + "    let ptr := allocate_memory(add(4, alen))\n    mstore(ptr, shl(224, "@ + selector
        + "))\n    let blob := add(ptr, 4)\n"@ + write
        + "    let ok := call(gas(), target, 0, ptr, add(4, alen), 0, 0)\n"@
        + "    if iszero(ok) { gum_bubble_revert() }\n"@ + decode
}

proof fn lemma_wrapper_made(
    g: EnvV,
    st: StV,
    iface_name: Seq<char>,
    method: Seq<char>,
    args: Seq<Seq<char>>,
)
    requires
        0 < args.len() <= usize::MAX,
        !wrapper_parts(g, st, iface_name, method, (args.len() - 1) as nat).0.thunks.contains_key(
            wrapper_name(iface_name, method),
        ),
    ensures
        ({
            let n = (args.len() - 1) as nat;
            let (made, a, b, c) = wrapper_parts(g, st, iface_name, method, n);
            let (after, call) = extcall_wrapper_src_spec(g, st, iface_name, method, args, false);
            let name = wrapper_name(iface_name, method);
            &&& call == name + "("@ + join_spec(args, ", "@) + ")"@
            &&& after.thunks.contains_key("gum_bubble_revert"@)
            &&& after.thunks.contains_key(name)
            &&& after.thunks[name] == wrapper_head(g, iface_name, method, n) + " {\n"@
                + wrapper_inner(a, method_selector_spec(g, iface_name, method), b, c) + "}\n"@
        }),
{
    reveal(extcall_wrapper_src_spec);
    let n = (args.len() - 1) as nat;
    let (made, a, b, c) = wrapper_parts(g, st, iface_name, method, n);
    let name = wrapper_name(iface_name, method);
    let (after, call) = extcall_wrapper_src_spec(g, st, iface_name, method, args, false);
    let selector = method_selector_spec(g, iface_name, method);
    let head = wrapper_head(g, iface_name, method, n);
    assert((args.len() as usize - 1) as usize as nat == n);
    assert("__extcall_"@ + ""@ + iface_name + "_"@ + method =~= name) by {
        reveal_strlit("");
    }
    assert(name != "gum_bubble_revert"@) by {
        reveal_strlit("__extcall_");
        reveal_strlit("gum_bubble_revert");
        assert(name[0] == "__extcall_"@[0]);
    }
    let l1 = "    let ptr := allocate_memory(add(4, alen))\n    mstore(ptr, shl(224, "@;
    let l2 = "))\n    let blob := add(ptr, 4)\n"@;
    let l3 = "    let ok := call(gas(), target, 0, ptr, add(4, alen), 0, 0)\n"@;
    let l4 = "    if iszero(ok) { gum_bubble_revert() }\n"@;
    assert(after.thunks[name] == head + " {\n"@ + a + l1 + selector + l2 + b + l3 + l4 + c + "}\n"@);
    assert(after.thunks[name] =~= head + " {\n"@ + (a + l1 + selector + l2 + b + l3 + l4 + c)
        + "}\n"@);
}

proof fn lemma_wrapper_head(g: EnvV, iface_name: Seq<char>, method: Seq<char>, n: nat, f: YulFn)
    requires
        f.name == wrapper_name(iface_name, method),
        f.params == seq!["target"@] + numbered("a"@, n),
        f.rets == (if method_return_spec(g, iface_name, method) is Some {
            seq!["result"@]
        } else {
            Seq::empty()
        }),
    ensures
        fn_text(f) == wrapper_head(g, iface_name, method, n) + " {"@ + code_text(f.body) + "}"@,
{
    let names = numbered("a"@, n);
    lemma_join_first("target"@, names);
    reveal_strlit("");
    assert("(target"@ =~= "("@ + "target"@) by {
        reveal_strlit("(target");
        reveal_strlit("(");
        reveal_strlit("target");
    }
    assert(" -> result"@ =~= " -> "@ + "result"@) by {
        reveal_strlit(" -> result");
        reveal_strlit(" -> ");
        reveal_strlit("result");
    }
    assert(join_spec(seq!["result"@], ", "@) == "result"@);
    if n == 0 {
        assert(names =~= Seq::<Seq<char>>::empty());
        assert(join_spec(names, ", "@) =~= Seq::<char>::empty());
    }
    assert(wrapper_head(g, iface_name, method, n) =~= "function "@ + f.name + "("@ + join_spec(
        f.params,
        ", "@,
    ) + ")"@ + (if f.rets.len() == 0 {
        Seq::empty()
    } else {
        " -> "@ + join_spec(f.rets, ", "@)
    }));
}

proof fn lemma_body_text(size: Code, selector: Seq<char>, write: Code, decode: Code)
    ensures
        code_text(
            both(
                both(both(call_setup(size, selector, write), call_made()), call_failed()),
                decode,
            ),
        ) == "\n"@ + wrapper_inner(
            code_text(size),
            selector,
            code_text(write),
            code_text(decode),
        ),
{
    let setup = call_setup(size, selector, write);
    let c1 = both(setup, call_made());
    let c2 = both(c1, call_failed());
    lemma_setup_text(size, selector, write);
    lemma_call_made();
    lemma_call_failed();
    law_code_joins(setup, call_made());
    law_code_joins(c1, call_failed());
    law_code_joins(c2, decode);
    let (a, b, c) = (code_text(size), code_text(write), code_text(decode));
    let l1 = "    let ptr := allocate_memory(add(4, alen))\n    mstore(ptr, shl(224, "@;
    let l2 = "))\n    let blob := add(ptr, 4)\n"@;
    let l3 = "    let ok := call(gas(), target, 0, ptr, add(4, alen), 0, 0)\n"@;
    let l4 = "    if iszero(ok) { gum_bubble_revert() }\n"@;
    assert("\n"@ + a + l1 + selector + l2 + b + l3 + l4 + c =~= "\n"@ + (a + l1 + selector + l2 + b
        + l3 + l4 + c));
}

/// The wrapper of a call outside a `try` is a function that takes the target and the
/// arguments. Whatever the code of its parts does, the wrapper sets the arguments up, calls,
/// reverts with exactly what came back where the call failed, and otherwise goes on with
/// what decodes the answer.
pub proof fn law_call_passes_reverts_on(
    g: EnvV,
    st: StV,
    iface_name: Seq<char>,
    method: Seq<char>,
    args: Seq<Seq<char>>,
    size: Code,
    write: Code,
    decode: Code,
)
    requires
        0 < args.len() <= usize::MAX,
        ({
            let (made, a, b, c) = wrapper_parts(
                g,
                st,
                iface_name,
                method,
                (args.len() - 1) as nat,
            );
            &&& code_text(size) == a
            &&& code_text(write) == b
            &&& code_text(decode) == c
            &&& !made.thunks.contains_key(wrapper_name(iface_name, method))
        }),
    ensures
        ({
            let (after, call) = extcall_wrapper_src_spec(g, st, iface_name, method, args, false);
            let name = wrapper_name(iface_name, method);
            &&& call == name + "("@ + join_spec(args, ", "@) + ")"@
            &&& after.thunks.contains_key("gum_bubble_revert"@)
            &&& after.thunks.contains_key(name)
            &&& exists|f: YulFn, setup: Code|
                {
                    &&& after.thunks[name] == #[trigger] fn_text(f) + "\n"@
                    &&& f.name == name
                    &&& f.params == seq!["target"@] + numbered("a"@, (args.len() - 1) as nat)
                    &&& f.rets == (if method_return_spec(g, iface_name, method) is Some {
                        seq!["result"@]
                    } else {
                        Seq::empty()
                    })
                    &&& #[trigger] code_text(setup) == "\n"@ + code_text(size)
                        + "    let ptr := allocate_memory(add(4, alen))\n    mstore(ptr, shl(224, "@
                        + method_selector_spec(g, iface_name, method)
                        + "))\n    let blob := add(ptr, 4)\n"@ + code_text(write)
                    &&& passes_reverts_on(f.body, setup, decode)
                }
        }),
{
    let n = (args.len() - 1) as nat;
    let selector = method_selector_spec(g, iface_name, method);
    let name = wrapper_name(iface_name, method);
    let after = extcall_wrapper_src_spec(g, st, iface_name, method, args, false).0;
    let setup = call_setup(size, selector, write);
    let body = both(both(both(setup, call_made()), call_failed()), decode);
    let f = YulFn {
        name,
        params: seq!["target"@] + numbered("a"@, n),
        rets: if method_return_spec(g, iface_name, method) is Some {
            seq!["result"@]
        } else {
            Seq::empty()
        },
        body,
    };
    lemma_wrapper_made(g, st, iface_name, method, args);
    lemma_wrapper_head(g, iface_name, method, n, f);
    lemma_body_text(size, selector, write, decode);
    lemma_setup_text(size, selector, write);
    lemma_passes_on(setup, decode);
    let (made, a, b, c) = wrapper_parts(g, st, iface_name, method, n);
    let head = wrapper_head(g, iface_name, method, n);
    let inner = wrapper_inner(a, selector, b, c);
    assert(" {\n"@ =~= " {"@ + "\n"@) by {
        reveal_strlit(" {\n");
        reveal_strlit(" {");
        reveal_strlit("\n");
    }
    assert("}\n"@ =~= "}"@ + "\n"@) by {
        reveal_strlit("}\n");
        reveal_strlit("}");
        reveal_strlit("\n");
    }
    let text = code_text(body);
    assert(head + " {\n"@ + inner + "}\n"@ =~= head + " {"@ + ("\n"@ + inner) + "}"@ + "\n"@);
    assert(fn_text(f) == head + " {"@ + text + "}"@);
    assert(after.thunks[name] == fn_text(f) + "\n"@);
}

/// The answer of a method that returns one word: where the callee gave a word, the wrapper
/// gives it back, and where it gave less, the wrapper reverts without data.
pub proof fn law_answer_of_one_word(g: EnvV, st: StV, t: TypeV, p: Map<Seq<char>, YulFn>, m: Machine, d: nat)
    requires
        decode_wide_spec(g, st, t, "result"@).1 is None,
    ensures
        extcall_return_src_spec(g, st, Some(t)).1 == code_text(word_decoded()),
        m.answer.len() >= 32 ==> run(p, m, word_decoded(), d).1 == End::Next && run(
            p,
            m,
            word_decoded(),
            d,
        ).0.vars == m.vars.insert("result"@, from_bytes(m.answer.subrange(0, 32))),
        m.answer.len() < 32 ==> run(p, m, word_decoded(), d).1 == End::Revert(Seq::empty()),
{
    reveal(extcall_return_src_spec);
    lemma_word_decoded();
    lemma_numbers();
    let short = op2(Op::Lt, op0(Op::Returndatasize), num("32"@));
    assert(eval(p, m, short, d) == give(m, truth(m.answer.len() < 32))) by {
        broadcast use group_steps;

        reveal(apply);
    }
    let fails = tail(line(none(), " "@, YulStmt::Do(op2(Op::Revert, num("0"@), num("0"@)))), " "@);
    assert(bytes_at(m.mem, 0, 0) =~= Seq::<u8>::empty());
    assert(run(p, m, fails, d).1 == End::Revert(Seq::empty())) by {
        broadcast use group_steps;

        reveal(apply);
    }
    let c1 = line(none(), "    "@, YulStmt::If(short, fails));
    let gap = "\n    "@;
    let s2 = YulStmt::Do(op3(Op::Returndatacopy, num("0"@), num("0"@), num("32"@)));
    let c2 = line(c1, gap, s2);
    let c3 = line(c2, gap, YulStmt::Put("result"@, op1(Op::Mload, num("0"@))));
    if m.answer.len() < 32 {
        assert(run(p, m, c1, d).1 == End::Revert(Seq::empty())) by {
            broadcast use group_steps;

        }
        broadcast use group_steps;

    } else {
        assert(run(p, m, c1, d) == (m, End::Next)) by {
            broadcast use group_steps;

        }
        let mem = put_bytes(m.mem, 0, cut_bytes(m.answer, 0, 32));
        let m2 = Machine { mem, ..m };
        assert(run(p, m, c2, d) == (m2, End::Next)) by {
            broadcast use group_steps;

            reveal(apply);
        }
        let v = from_bytes(m.answer.subrange(0, 32));
        assert(bytes_at(mem, 0, 32) =~= m.answer.subrange(0, 32));
        assert(run(p, m, c3, d) == (
            Machine { vars: m.vars.insert("result"@, v), ..m2 },
            End::Next,
        )) by {
            broadcast use group_steps;

            reveal(apply);
        }
        broadcast use group_steps;

    }
}

} // verus!
