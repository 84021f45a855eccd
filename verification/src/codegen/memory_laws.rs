//! What the memory functions do: the slot of a mapping's entry, and fresh memory.
use crate::codegen::entry::memory_fns_spec;
use crate::codegen::word::{from_bytes, is_word, law_word_bytes_differ, lemma_bytes_len, word_bytes};
use crate::codegen::yul::keccak256;
use crate::codegen::yul_num::lemma_numbers;
use crate::codegen::yul_run::{
    apply, bytes_at, byte_at, called, entry_vars, group_steps, lemma_entry, put_bytes, run, End,
    Machine,
};
use crate::codegen::yul_text::{
    at, fn_head, lemma_at_add, lemma_at_fn, lemma_at_if, lemma_at_line, lemma_at_nothing,
    lemma_at_whole, lemma_joined,
};
use crate::codegen::yul_tree::{
    expr_text, fn_text, group_texts, line, none, num, op1, op2, op3, stmt_text, tail, var, Op,
    YulFn, YulStmt,
};
use vstd::prelude::*;

verus! {

pub open spec fn allocate_memory_fn() -> YulFn {
    YulFn {
        name: "allocate_memory"@,
        params: seq!["size"@],
        rets: seq!["ptr"@],
        body: tail(line(line(line(none(), "\n          "@, YulStmt::Put("ptr"@, op1(Op::Mload, num("0x40"@)))), "\n          "@, YulStmt::If(op1(Op::Iszero, var("ptr"@)), tail(line(none(), " "@, YulStmt::Put("ptr"@, num("0x80"@))), " "@))), "\n          "@, YulStmt::Do(op2(Op::Mstore, num("0x40"@), op2(Op::Add, var("ptr"@), var("size"@))))), "\n      "@),
    }
}

pub open spec fn gum_hash_slot_fn() -> YulFn {
    YulFn {
        name: "gum_hash_slot"@,
        params: seq!["key"@, "slot"@],
        rets: seq!["hash_ptr"@],
        body: tail(line(line(line(none(), "\n          "@, YulStmt::Do(op2(Op::Mstore, num("0x00"@), var("key"@)))), "\n          "@, YulStmt::Do(op2(Op::Mstore, num("0x20"@), var("slot"@)))), "\n          "@, YulStmt::Put("hash_ptr"@, op2(Op::Keccak256, num("0x00"@), num("0x40"@)))), "\n      "@),
    }
}

pub open spec fn gum_memory_copy_fn() -> YulFn {
    YulFn {
        name: "gum_memory_copy"@,
        params: seq!["src"@, "dst"@, "size"@],
        rets: Seq::empty(),
        body: tail(line(none(), "\n          "@, YulStmt::Do(op3(Op::Mcopy, var("dst"@), var("src"@), var("size"@)))), "\n      "@),
    }
}

proof fn lemma_allocate_memory_cuts()
    ensures
        at("      function allocate_memory(size) -> ptr {\n          ptr := mload(0x40)\n          if iszero(ptr) { ptr := 0x80 }\n          mstore(0x40, add(ptr, size))\n      }\n\n      function gum_hash_slot(key, slot) -> hash_ptr {\n          mstore(0x00, key)\n          mstore(0x20, slot)\n          hash_ptr := keccak256(0x00, 0x40)\n      }\n\n      function gum_memory_copy(src, dst, size) {\n          mcopy(dst, src, size)\n      }\n"@, 6, 45, "function allocate_memory(size) -> ptr {"@),
        at("      function allocate_memory(size) -> ptr {\n          ptr := mload(0x40)\n          if iszero(ptr) { ptr := 0x80 }\n          mstore(0x40, add(ptr, size))\n      }\n\n      function gum_hash_slot(key, slot) -> hash_ptr {\n          mstore(0x00, key)\n          mstore(0x20, slot)\n          hash_ptr := keccak256(0x00, 0x40)\n      }\n\n      function gum_memory_copy(src, dst, size) {\n          mcopy(dst, src, size)\n      }\n"@, 56, 74, "ptr := mload(0x40)"@),
        at("      function allocate_memory(size) -> ptr {\n          ptr := mload(0x40)\n          if iszero(ptr) { ptr := 0x80 }\n          mstore(0x40, add(ptr, size))\n      }\n\n      function gum_hash_slot(key, slot) -> hash_ptr {\n          mstore(0x00, key)\n          mstore(0x20, slot)\n          hash_ptr := keccak256(0x00, 0x40)\n      }\n\n      function gum_memory_copy(src, dst, size) {\n          mcopy(dst, src, size)\n      }\n"@, 45, 56, "\n          "@),
        at("      function allocate_memory(size) -> ptr {\n          ptr := mload(0x40)\n          if iszero(ptr) { ptr := 0x80 }\n          mstore(0x40, add(ptr, size))\n      }\n\n      function gum_hash_slot(key, slot) -> hash_ptr {\n          mstore(0x00, key)\n          mstore(0x20, slot)\n          hash_ptr := keccak256(0x00, 0x40)\n      }\n\n      function gum_memory_copy(src, dst, size) {\n          mcopy(dst, src, size)\n      }\n"@, 85, 101, "if iszero(ptr) {"@),
        at("      function allocate_memory(size) -> ptr {\n          ptr := mload(0x40)\n          if iszero(ptr) { ptr := 0x80 }\n          mstore(0x40, add(ptr, size))\n      }\n\n      function gum_hash_slot(key, slot) -> hash_ptr {\n          mstore(0x00, key)\n          mstore(0x20, slot)\n          hash_ptr := keccak256(0x00, 0x40)\n      }\n\n      function gum_memory_copy(src, dst, size) {\n          mcopy(dst, src, size)\n      }\n"@, 102, 113, "ptr := 0x80"@),
        at("      function allocate_memory(size) -> ptr {\n          ptr := mload(0x40)\n          if iszero(ptr) { ptr := 0x80 }\n          mstore(0x40, add(ptr, size))\n      }\n\n      function gum_hash_slot(key, slot) -> hash_ptr {\n          mstore(0x00, key)\n          mstore(0x20, slot)\n          hash_ptr := keccak256(0x00, 0x40)\n      }\n\n      function gum_memory_copy(src, dst, size) {\n          mcopy(dst, src, size)\n      }\n"@, 101, 102, " "@),
        at("      function allocate_memory(size) -> ptr {\n          ptr := mload(0x40)\n          if iszero(ptr) { ptr := 0x80 }\n          mstore(0x40, add(ptr, size))\n      }\n\n      function gum_hash_slot(key, slot) -> hash_ptr {\n          mstore(0x00, key)\n          mstore(0x20, slot)\n          hash_ptr := keccak256(0x00, 0x40)\n      }\n\n      function gum_memory_copy(src, dst, size) {\n          mcopy(dst, src, size)\n      }\n"@, 113, 114, " "@),
        at("      function allocate_memory(size) -> ptr {\n          ptr := mload(0x40)\n          if iszero(ptr) { ptr := 0x80 }\n          mstore(0x40, add(ptr, size))\n      }\n\n      function gum_hash_slot(key, slot) -> hash_ptr {\n          mstore(0x00, key)\n          mstore(0x20, slot)\n          hash_ptr := keccak256(0x00, 0x40)\n      }\n\n      function gum_memory_copy(src, dst, size) {\n          mcopy(dst, src, size)\n      }\n"@, 114, 115, "}"@),
        at("      function allocate_memory(size) -> ptr {\n          ptr := mload(0x40)\n          if iszero(ptr) { ptr := 0x80 }\n          mstore(0x40, add(ptr, size))\n      }\n\n      function gum_hash_slot(key, slot) -> hash_ptr {\n          mstore(0x00, key)\n          mstore(0x20, slot)\n          hash_ptr := keccak256(0x00, 0x40)\n      }\n\n      function gum_memory_copy(src, dst, size) {\n          mcopy(dst, src, size)\n      }\n"@, 74, 85, "\n          "@),
        at("      function allocate_memory(size) -> ptr {\n          ptr := mload(0x40)\n          if iszero(ptr) { ptr := 0x80 }\n          mstore(0x40, add(ptr, size))\n      }\n\n      function gum_hash_slot(key, slot) -> hash_ptr {\n          mstore(0x00, key)\n          mstore(0x20, slot)\n          hash_ptr := keccak256(0x00, 0x40)\n      }\n\n      function gum_memory_copy(src, dst, size) {\n          mcopy(dst, src, size)\n      }\n"@, 126, 154, "mstore(0x40, add(ptr, size))"@),
        at("      function allocate_memory(size) -> ptr {\n          ptr := mload(0x40)\n          if iszero(ptr) { ptr := 0x80 }\n          mstore(0x40, add(ptr, size))\n      }\n\n      function gum_hash_slot(key, slot) -> hash_ptr {\n          mstore(0x00, key)\n          mstore(0x20, slot)\n          hash_ptr := keccak256(0x00, 0x40)\n      }\n\n      function gum_memory_copy(src, dst, size) {\n          mcopy(dst, src, size)\n      }\n"@, 115, 126, "\n          "@),
        at("      function allocate_memory(size) -> ptr {\n          ptr := mload(0x40)\n          if iszero(ptr) { ptr := 0x80 }\n          mstore(0x40, add(ptr, size))\n      }\n\n      function gum_hash_slot(key, slot) -> hash_ptr {\n          mstore(0x00, key)\n          mstore(0x20, slot)\n          hash_ptr := keccak256(0x00, 0x40)\n      }\n\n      function gum_memory_copy(src, dst, size) {\n          mcopy(dst, src, size)\n      }\n"@, 154, 161, "\n      "@),
        at("      function allocate_memory(size) -> ptr {\n          ptr := mload(0x40)\n          if iszero(ptr) { ptr := 0x80 }\n          mstore(0x40, add(ptr, size))\n      }\n\n      function gum_hash_slot(key, slot) -> hash_ptr {\n          mstore(0x00, key)\n          mstore(0x20, slot)\n          hash_ptr := keccak256(0x00, 0x40)\n      }\n\n      function gum_memory_copy(src, dst, size) {\n          mcopy(dst, src, size)\n      }\n"@, 161, 162, "}"@),
{
    let l0 = "      function allocate_memory(size) -> ptr {\n          ptr := mload(0x40)\n          if iszero(ptr) { ptr := 0x80 }\n          mstore(0x40, add(ptr, size))\n      }\n\n      function gum_hash_slot(key, slot) -> hash_ptr {\n          mstore(0x00, key)\n          mstore(0x20, slot)\n          hash_ptr := keccak256(0x00, 0x40)\n      }\n\n      function gum_memory_copy(src, dst, size) {\n          mcopy(dst, src, size)\n      }\n"@;
    reveal_strlit("      function allocate_memory(size) -> ptr {\n          ptr := mload(0x40)\n          if iszero(ptr) { ptr := 0x80 }\n          mstore(0x40, add(ptr, size))\n      }\n\n      function gum_hash_slot(key, slot) -> hash_ptr {\n          mstore(0x00, key)\n          mstore(0x20, slot)\n          hash_ptr := keccak256(0x00, 0x40)\n      }\n\n      function gum_memory_copy(src, dst, size) {\n          mcopy(dst, src, size)\n      }\n");
    reveal_strlit("function allocate_memory(size) -> ptr {");
    reveal_strlit("ptr := mload(0x40)");
    reveal_strlit("\n          ");
    reveal_strlit("if iszero(ptr) {");
    reveal_strlit("ptr := 0x80");
    reveal_strlit(" ");
    reveal_strlit("}");
    reveal_strlit("mstore(0x40, add(ptr, size))");
    reveal_strlit("\n      ");
    assert(l0.subrange(6, 45) =~= "function allocate_memory(size) -> ptr {"@);
    assert(l0.subrange(56, 74) =~= "ptr := mload(0x40)"@);
    assert(l0.subrange(45, 56) =~= "\n          "@);
    assert(l0.subrange(85, 101) =~= "if iszero(ptr) {"@);
    assert(l0.subrange(102, 113) =~= "ptr := 0x80"@);
    assert(l0.subrange(101, 102) =~= " "@);
    assert(l0.subrange(113, 114) =~= " "@);
    assert(l0.subrange(114, 115) =~= "}"@);
    assert(l0.subrange(74, 85) =~= "\n          "@);
    assert(l0.subrange(126, 154) =~= "mstore(0x40, add(ptr, size))"@);
    assert(l0.subrange(115, 126) =~= "\n          "@);
    assert(l0.subrange(154, 161) =~= "\n      "@);
    assert(l0.subrange(161, 162) =~= "}"@);
}

proof fn lemma_allocate_memory_pieces()
    ensures
        fn_head(allocate_memory_fn()) == "function allocate_memory(size) -> ptr {"@,
        stmt_text(YulStmt::Put("ptr"@, op1(Op::Mload, num("0x40"@)))) == "ptr := mload(0x40)"@,
        "if "@ + expr_text(op1(Op::Iszero, var("ptr"@))) + " {"@ == "if iszero(ptr) {"@,
        stmt_text(YulStmt::Put("ptr"@, num("0x80"@))) == "ptr := 0x80"@,
        stmt_text(YulStmt::Do(op2(Op::Mstore, num("0x40"@), op2(Op::Add, var("ptr"@), var("size"@))))) == "mstore(0x40, add(ptr, size))"@,
{
    lemma_joined("size"@, Seq::empty(), Seq::empty(), Seq::empty(), Seq::empty());
    lemma_joined("ptr"@, Seq::empty(), Seq::empty(), Seq::empty(), Seq::empty());
    assert(fn_head(allocate_memory_fn()) =~= "function allocate_memory(size) -> ptr {"@) by {
        broadcast use group_texts;

        reveal_strlit(" -> ");
        reveal_strlit(" {");
        reveal_strlit("(");
        reveal_strlit(")");
        reveal_strlit("allocate_memory");
        reveal_strlit("function ");
        reveal_strlit("function allocate_memory(size) -> ptr {");
        reveal_strlit("ptr");
        reveal_strlit("size");
    }
    assert(stmt_text(YulStmt::Put("ptr"@, op1(Op::Mload, num("0x40"@)))) =~= "ptr := mload(0x40)"@) by {
        broadcast use group_texts;

        reveal_strlit(" := ");
        reveal_strlit("(");
        reveal_strlit(")");
        reveal_strlit("0x40");
        reveal_strlit("mload");
        reveal_strlit("ptr");
        reveal_strlit("ptr := mload(0x40)");
    }
    assert("if "@ + expr_text(op1(Op::Iszero, var("ptr"@))) + " {"@ =~= "if iszero(ptr) {"@) by {
        broadcast use group_texts;

        reveal_strlit(" {");
        reveal_strlit("(");
        reveal_strlit(")");
        reveal_strlit("if ");
        reveal_strlit("if iszero(ptr) {");
        reveal_strlit("iszero");
        reveal_strlit("ptr");
    }
    assert(stmt_text(YulStmt::Put("ptr"@, num("0x80"@))) =~= "ptr := 0x80"@) by {
        broadcast use group_texts;

        reveal_strlit(" := ");
        reveal_strlit("0x80");
        reveal_strlit("ptr");
        reveal_strlit("ptr := 0x80");
    }
    assert(stmt_text(YulStmt::Do(op2(Op::Mstore, num("0x40"@), op2(Op::Add, var("ptr"@), var("size"@))))) =~= "mstore(0x40, add(ptr, size))"@) by {
        broadcast use group_texts;

        reveal_strlit("(");
        reveal_strlit(")");
        reveal_strlit(", ");
        reveal_strlit("0x40");
        reveal_strlit("add");
        reveal_strlit("mstore");
        reveal_strlit("mstore(0x40, add(ptr, size))");
        reveal_strlit("ptr");
        reveal_strlit("size");
    }
}

proof fn lemma_allocate_memory_text()
    ensures
        at(memory_fns_spec(), 6, 162, fn_text(allocate_memory_fn())),
{
    let l = memory_fns_spec();
    let l0 = "      function allocate_memory(size) -> ptr {\n          ptr := mload(0x40)\n          if iszero(ptr) { ptr := 0x80 }\n          mstore(0x40, add(ptr, size))\n      }\n\n      function gum_hash_slot(key, slot) -> hash_ptr {\n          mstore(0x00, key)\n          mstore(0x20, slot)\n          hash_ptr := keccak256(0x00, 0x40)\n      }\n\n      function gum_memory_copy(src, dst, size) {\n          mcopy(dst, src, size)\n      }\n"@;
    assert(l0.len() == 417) by {
        reveal_strlit("      function allocate_memory(size) -> ptr {\n          ptr := mload(0x40)\n          if iszero(ptr) { ptr := 0x80 }\n          mstore(0x40, add(ptr, size))\n      }\n\n      function gum_hash_slot(key, slot) -> hash_ptr {\n          mstore(0x00, key)\n          mstore(0x20, slot)\n          hash_ptr := keccak256(0x00, 0x40)\n      }\n\n      function gum_memory_copy(src, dst, size) {\n          mcopy(dst, src, size)\n      }\n");
    }
    lemma_allocate_memory_cuts();
    lemma_allocate_memory_pieces();
    let f6 = allocate_memory_fn();
    lemma_at_nothing(l, 45);
    let k1 = none();
    let s2 = YulStmt::Put("ptr"@, op1(Op::Mload, num("0x40"@)));
    lemma_at_line(l, 45, 45, 56, 74, k1, "\n          "@, s2);
    let k3 = line(k1, "\n          "@, s2);
    let c4 = op1(Op::Iszero, var("ptr"@));
    lemma_at_nothing(l, 101);
    let k5 = none();
    let s6 = YulStmt::Put("ptr"@, num("0x80"@));
    lemma_at_line(l, 101, 101, 102, 113, k5, " "@, s6);
    let k7 = line(k5, " "@, s6);
    let k8 = tail(k7, " "@);
    let s9 = YulStmt::If(c4, k8);
    lemma_at_if(l, 85, 101, 113, 114, c4, k8);
    lemma_at_line(l, 45, 74, 85, 115, k3, "\n          "@, s9);
    let k10 = line(k3, "\n          "@, s9);
    let s11 = YulStmt::Do(op2(Op::Mstore, num("0x40"@), op2(Op::Add, var("ptr"@), var("size"@))));
    lemma_at_line(l, 45, 115, 126, 154, k10, "\n          "@, s11);
    let k12 = line(k10, "\n          "@, s11);
    let k13 = tail(k12, "\n      "@);
    assert(f6.body == k13);
    lemma_at_fn(l, 6, 45, 154, 161, f6);
}

proof fn lemma_gum_hash_slot_cuts()
    ensures
        at("      function allocate_memory(size) -> ptr {\n          ptr := mload(0x40)\n          if iszero(ptr) { ptr := 0x80 }\n          mstore(0x40, add(ptr, size))\n      }\n\n      function gum_hash_slot(key, slot) -> hash_ptr {\n          mstore(0x00, key)\n          mstore(0x20, slot)\n          hash_ptr := keccak256(0x00, 0x40)\n      }\n\n      function gum_memory_copy(src, dst, size) {\n          mcopy(dst, src, size)\n      }\n"@, 170, 217, "function gum_hash_slot(key, slot) -> hash_ptr {"@),
        at("      function allocate_memory(size) -> ptr {\n          ptr := mload(0x40)\n          if iszero(ptr) { ptr := 0x80 }\n          mstore(0x40, add(ptr, size))\n      }\n\n      function gum_hash_slot(key, slot) -> hash_ptr {\n          mstore(0x00, key)\n          mstore(0x20, slot)\n          hash_ptr := keccak256(0x00, 0x40)\n      }\n\n      function gum_memory_copy(src, dst, size) {\n          mcopy(dst, src, size)\n      }\n"@, 228, 245, "mstore(0x00, key)"@),
        at("      function allocate_memory(size) -> ptr {\n          ptr := mload(0x40)\n          if iszero(ptr) { ptr := 0x80 }\n          mstore(0x40, add(ptr, size))\n      }\n\n      function gum_hash_slot(key, slot) -> hash_ptr {\n          mstore(0x00, key)\n          mstore(0x20, slot)\n          hash_ptr := keccak256(0x00, 0x40)\n      }\n\n      function gum_memory_copy(src, dst, size) {\n          mcopy(dst, src, size)\n      }\n"@, 217, 228, "\n          "@),
        at("      function allocate_memory(size) -> ptr {\n          ptr := mload(0x40)\n          if iszero(ptr) { ptr := 0x80 }\n          mstore(0x40, add(ptr, size))\n      }\n\n      function gum_hash_slot(key, slot) -> hash_ptr {\n          mstore(0x00, key)\n          mstore(0x20, slot)\n          hash_ptr := keccak256(0x00, 0x40)\n      }\n\n      function gum_memory_copy(src, dst, size) {\n          mcopy(dst, src, size)\n      }\n"@, 256, 274, "mstore(0x20, slot)"@),
        at("      function allocate_memory(size) -> ptr {\n          ptr := mload(0x40)\n          if iszero(ptr) { ptr := 0x80 }\n          mstore(0x40, add(ptr, size))\n      }\n\n      function gum_hash_slot(key, slot) -> hash_ptr {\n          mstore(0x00, key)\n          mstore(0x20, slot)\n          hash_ptr := keccak256(0x00, 0x40)\n      }\n\n      function gum_memory_copy(src, dst, size) {\n          mcopy(dst, src, size)\n      }\n"@, 245, 256, "\n          "@),
        at("      function allocate_memory(size) -> ptr {\n          ptr := mload(0x40)\n          if iszero(ptr) { ptr := 0x80 }\n          mstore(0x40, add(ptr, size))\n      }\n\n      function gum_hash_slot(key, slot) -> hash_ptr {\n          mstore(0x00, key)\n          mstore(0x20, slot)\n          hash_ptr := keccak256(0x00, 0x40)\n      }\n\n      function gum_memory_copy(src, dst, size) {\n          mcopy(dst, src, size)\n      }\n"@, 285, 318, "hash_ptr := keccak256(0x00, 0x40)"@),
        at("      function allocate_memory(size) -> ptr {\n          ptr := mload(0x40)\n          if iszero(ptr) { ptr := 0x80 }\n          mstore(0x40, add(ptr, size))\n      }\n\n      function gum_hash_slot(key, slot) -> hash_ptr {\n          mstore(0x00, key)\n          mstore(0x20, slot)\n          hash_ptr := keccak256(0x00, 0x40)\n      }\n\n      function gum_memory_copy(src, dst, size) {\n          mcopy(dst, src, size)\n      }\n"@, 274, 285, "\n          "@),
        at("      function allocate_memory(size) -> ptr {\n          ptr := mload(0x40)\n          if iszero(ptr) { ptr := 0x80 }\n          mstore(0x40, add(ptr, size))\n      }\n\n      function gum_hash_slot(key, slot) -> hash_ptr {\n          mstore(0x00, key)\n          mstore(0x20, slot)\n          hash_ptr := keccak256(0x00, 0x40)\n      }\n\n      function gum_memory_copy(src, dst, size) {\n          mcopy(dst, src, size)\n      }\n"@, 318, 325, "\n      "@),
        at("      function allocate_memory(size) -> ptr {\n          ptr := mload(0x40)\n          if iszero(ptr) { ptr := 0x80 }\n          mstore(0x40, add(ptr, size))\n      }\n\n      function gum_hash_slot(key, slot) -> hash_ptr {\n          mstore(0x00, key)\n          mstore(0x20, slot)\n          hash_ptr := keccak256(0x00, 0x40)\n      }\n\n      function gum_memory_copy(src, dst, size) {\n          mcopy(dst, src, size)\n      }\n"@, 325, 326, "}"@),
{
    let l0 = "      function allocate_memory(size) -> ptr {\n          ptr := mload(0x40)\n          if iszero(ptr) { ptr := 0x80 }\n          mstore(0x40, add(ptr, size))\n      }\n\n      function gum_hash_slot(key, slot) -> hash_ptr {\n          mstore(0x00, key)\n          mstore(0x20, slot)\n          hash_ptr := keccak256(0x00, 0x40)\n      }\n\n      function gum_memory_copy(src, dst, size) {\n          mcopy(dst, src, size)\n      }\n"@;
    reveal_strlit("      function allocate_memory(size) -> ptr {\n          ptr := mload(0x40)\n          if iszero(ptr) { ptr := 0x80 }\n          mstore(0x40, add(ptr, size))\n      }\n\n      function gum_hash_slot(key, slot) -> hash_ptr {\n          mstore(0x00, key)\n          mstore(0x20, slot)\n          hash_ptr := keccak256(0x00, 0x40)\n      }\n\n      function gum_memory_copy(src, dst, size) {\n          mcopy(dst, src, size)\n      }\n");
    reveal_strlit("function gum_hash_slot(key, slot) -> hash_ptr {");
    reveal_strlit("mstore(0x00, key)");
    reveal_strlit("\n          ");
    reveal_strlit("mstore(0x20, slot)");
    reveal_strlit("hash_ptr := keccak256(0x00, 0x40)");
    reveal_strlit("\n      ");
    reveal_strlit("}");
    assert(l0.subrange(170, 217) =~= "function gum_hash_slot(key, slot) -> hash_ptr {"@);
    assert(l0.subrange(228, 245) =~= "mstore(0x00, key)"@);
    assert(l0.subrange(217, 228) =~= "\n          "@);
    assert(l0.subrange(256, 274) =~= "mstore(0x20, slot)"@);
    assert(l0.subrange(245, 256) =~= "\n          "@);
    assert(l0.subrange(285, 318) =~= "hash_ptr := keccak256(0x00, 0x40)"@);
    assert(l0.subrange(274, 285) =~= "\n          "@);
    assert(l0.subrange(318, 325) =~= "\n      "@);
    assert(l0.subrange(325, 326) =~= "}"@);
}

proof fn lemma_gum_hash_slot_pieces()
    ensures
        fn_head(gum_hash_slot_fn()) == "function gum_hash_slot(key, slot) -> hash_ptr {"@,
        stmt_text(YulStmt::Do(op2(Op::Mstore, num("0x00"@), var("key"@)))) == "mstore(0x00, key)"@,
        stmt_text(YulStmt::Do(op2(Op::Mstore, num("0x20"@), var("slot"@)))) == "mstore(0x20, slot)"@,
        stmt_text(YulStmt::Put("hash_ptr"@, op2(Op::Keccak256, num("0x00"@), num("0x40"@)))) == "hash_ptr := keccak256(0x00, 0x40)"@,
{
    lemma_joined("key"@, "slot"@, Seq::empty(), Seq::empty(), Seq::empty());
    lemma_joined("hash_ptr"@, Seq::empty(), Seq::empty(), Seq::empty(), Seq::empty());
    assert(fn_head(gum_hash_slot_fn()) =~= "function gum_hash_slot(key, slot) -> hash_ptr {"@) by {
        broadcast use group_texts;

        reveal_strlit(" -> ");
        reveal_strlit(" {");
        reveal_strlit("(");
        reveal_strlit(")");
        reveal_strlit(", ");
        reveal_strlit("function ");
        reveal_strlit("function gum_hash_slot(key, slot) -> hash_ptr {");
        reveal_strlit("gum_hash_slot");
        reveal_strlit("hash_ptr");
        reveal_strlit("key");
        reveal_strlit("slot");
    }
    assert(stmt_text(YulStmt::Do(op2(Op::Mstore, num("0x00"@), var("key"@)))) =~= "mstore(0x00, key)"@) by {
        broadcast use group_texts;

        reveal_strlit("(");
        reveal_strlit(")");
        reveal_strlit(", ");
        reveal_strlit("0x00");
        reveal_strlit("key");
        reveal_strlit("mstore");
        reveal_strlit("mstore(0x00, key)");
    }
    assert(stmt_text(YulStmt::Do(op2(Op::Mstore, num("0x20"@), var("slot"@)))) =~= "mstore(0x20, slot)"@) by {
        broadcast use group_texts;

        reveal_strlit("(");
        reveal_strlit(")");
        reveal_strlit(", ");
        reveal_strlit("0x20");
        reveal_strlit("mstore");
        reveal_strlit("mstore(0x20, slot)");
        reveal_strlit("slot");
    }
    assert(stmt_text(YulStmt::Put("hash_ptr"@, op2(Op::Keccak256, num("0x00"@), num("0x40"@)))) =~= "hash_ptr := keccak256(0x00, 0x40)"@) by {
        broadcast use group_texts;

        reveal_strlit(" := ");
        reveal_strlit("(");
        reveal_strlit(")");
        reveal_strlit(", ");
        reveal_strlit("0x00");
        reveal_strlit("0x40");
        reveal_strlit("hash_ptr");
        reveal_strlit("hash_ptr := keccak256(0x00, 0x40)");
        reveal_strlit("keccak256");
    }
}

proof fn lemma_gum_hash_slot_text()
    ensures
        at(memory_fns_spec(), 170, 326, fn_text(gum_hash_slot_fn())),
{
    let l = memory_fns_spec();
    let l0 = "      function allocate_memory(size) -> ptr {\n          ptr := mload(0x40)\n          if iszero(ptr) { ptr := 0x80 }\n          mstore(0x40, add(ptr, size))\n      }\n\n      function gum_hash_slot(key, slot) -> hash_ptr {\n          mstore(0x00, key)\n          mstore(0x20, slot)\n          hash_ptr := keccak256(0x00, 0x40)\n      }\n\n      function gum_memory_copy(src, dst, size) {\n          mcopy(dst, src, size)\n      }\n"@;
    assert(l0.len() == 417) by {
        reveal_strlit("      function allocate_memory(size) -> ptr {\n          ptr := mload(0x40)\n          if iszero(ptr) { ptr := 0x80 }\n          mstore(0x40, add(ptr, size))\n      }\n\n      function gum_hash_slot(key, slot) -> hash_ptr {\n          mstore(0x00, key)\n          mstore(0x20, slot)\n          hash_ptr := keccak256(0x00, 0x40)\n      }\n\n      function gum_memory_copy(src, dst, size) {\n          mcopy(dst, src, size)\n      }\n");
    }
    lemma_gum_hash_slot_cuts();
    lemma_gum_hash_slot_pieces();
    let f170 = gum_hash_slot_fn();
    lemma_at_nothing(l, 217);
    let k1 = none();
    let s2 = YulStmt::Do(op2(Op::Mstore, num("0x00"@), var("key"@)));
    lemma_at_line(l, 217, 217, 228, 245, k1, "\n          "@, s2);
    let k3 = line(k1, "\n          "@, s2);
    let s4 = YulStmt::Do(op2(Op::Mstore, num("0x20"@), var("slot"@)));
    lemma_at_line(l, 217, 245, 256, 274, k3, "\n          "@, s4);
    let k5 = line(k3, "\n          "@, s4);
    let s6 = YulStmt::Put("hash_ptr"@, op2(Op::Keccak256, num("0x00"@), num("0x40"@)));
    lemma_at_line(l, 217, 274, 285, 318, k5, "\n          "@, s6);
    let k7 = line(k5, "\n          "@, s6);
    let k8 = tail(k7, "\n      "@);
    assert(f170.body == k8);
    lemma_at_fn(l, 170, 217, 318, 325, f170);
}

proof fn lemma_gum_memory_copy_cuts()
    ensures
        at("      function allocate_memory(size) -> ptr {\n          ptr := mload(0x40)\n          if iszero(ptr) { ptr := 0x80 }\n          mstore(0x40, add(ptr, size))\n      }\n\n      function gum_hash_slot(key, slot) -> hash_ptr {\n          mstore(0x00, key)\n          mstore(0x20, slot)\n          hash_ptr := keccak256(0x00, 0x40)\n      }\n\n      function gum_memory_copy(src, dst, size) {\n          mcopy(dst, src, size)\n      }\n"@, 334, 376, "function gum_memory_copy(src, dst, size) {"@),
        at("      function allocate_memory(size) -> ptr {\n          ptr := mload(0x40)\n          if iszero(ptr) { ptr := 0x80 }\n          mstore(0x40, add(ptr, size))\n      }\n\n      function gum_hash_slot(key, slot) -> hash_ptr {\n          mstore(0x00, key)\n          mstore(0x20, slot)\n          hash_ptr := keccak256(0x00, 0x40)\n      }\n\n      function gum_memory_copy(src, dst, size) {\n          mcopy(dst, src, size)\n      }\n"@, 387, 408, "mcopy(dst, src, size)"@),
        at("      function allocate_memory(size) -> ptr {\n          ptr := mload(0x40)\n          if iszero(ptr) { ptr := 0x80 }\n          mstore(0x40, add(ptr, size))\n      }\n\n      function gum_hash_slot(key, slot) -> hash_ptr {\n          mstore(0x00, key)\n          mstore(0x20, slot)\n          hash_ptr := keccak256(0x00, 0x40)\n      }\n\n      function gum_memory_copy(src, dst, size) {\n          mcopy(dst, src, size)\n      }\n"@, 376, 387, "\n          "@),
        at("      function allocate_memory(size) -> ptr {\n          ptr := mload(0x40)\n          if iszero(ptr) { ptr := 0x80 }\n          mstore(0x40, add(ptr, size))\n      }\n\n      function gum_hash_slot(key, slot) -> hash_ptr {\n          mstore(0x00, key)\n          mstore(0x20, slot)\n          hash_ptr := keccak256(0x00, 0x40)\n      }\n\n      function gum_memory_copy(src, dst, size) {\n          mcopy(dst, src, size)\n      }\n"@, 408, 415, "\n      "@),
        at("      function allocate_memory(size) -> ptr {\n          ptr := mload(0x40)\n          if iszero(ptr) { ptr := 0x80 }\n          mstore(0x40, add(ptr, size))\n      }\n\n      function gum_hash_slot(key, slot) -> hash_ptr {\n          mstore(0x00, key)\n          mstore(0x20, slot)\n          hash_ptr := keccak256(0x00, 0x40)\n      }\n\n      function gum_memory_copy(src, dst, size) {\n          mcopy(dst, src, size)\n      }\n"@, 415, 416, "}"@),
{
    let l0 = "      function allocate_memory(size) -> ptr {\n          ptr := mload(0x40)\n          if iszero(ptr) { ptr := 0x80 }\n          mstore(0x40, add(ptr, size))\n      }\n\n      function gum_hash_slot(key, slot) -> hash_ptr {\n          mstore(0x00, key)\n          mstore(0x20, slot)\n          hash_ptr := keccak256(0x00, 0x40)\n      }\n\n      function gum_memory_copy(src, dst, size) {\n          mcopy(dst, src, size)\n      }\n"@;
    reveal_strlit("      function allocate_memory(size) -> ptr {\n          ptr := mload(0x40)\n          if iszero(ptr) { ptr := 0x80 }\n          mstore(0x40, add(ptr, size))\n      }\n\n      function gum_hash_slot(key, slot) -> hash_ptr {\n          mstore(0x00, key)\n          mstore(0x20, slot)\n          hash_ptr := keccak256(0x00, 0x40)\n      }\n\n      function gum_memory_copy(src, dst, size) {\n          mcopy(dst, src, size)\n      }\n");
    reveal_strlit("function gum_memory_copy(src, dst, size) {");
    reveal_strlit("mcopy(dst, src, size)");
    reveal_strlit("\n          ");
    reveal_strlit("\n      ");
    reveal_strlit("}");
    assert(l0.subrange(334, 376) =~= "function gum_memory_copy(src, dst, size) {"@);
    assert(l0.subrange(387, 408) =~= "mcopy(dst, src, size)"@);
    assert(l0.subrange(376, 387) =~= "\n          "@);
    assert(l0.subrange(408, 415) =~= "\n      "@);
    assert(l0.subrange(415, 416) =~= "}"@);
}

proof fn lemma_gum_memory_copy_pieces()
    ensures
        fn_head(gum_memory_copy_fn()) == "function gum_memory_copy(src, dst, size) {"@,
        stmt_text(YulStmt::Do(op3(Op::Mcopy, var("dst"@), var("src"@), var("size"@)))) == "mcopy(dst, src, size)"@,
{
    lemma_joined("src"@, "dst"@, "size"@, Seq::empty(), Seq::empty());
    assert(fn_head(gum_memory_copy_fn()) =~= "function gum_memory_copy(src, dst, size) {"@) by {
        broadcast use group_texts;

        reveal_strlit(" {");
        reveal_strlit("(");
        reveal_strlit(")");
        reveal_strlit(", ");
        reveal_strlit("dst");
        reveal_strlit("function ");
        reveal_strlit("function gum_memory_copy(src, dst, size) {");
        reveal_strlit("gum_memory_copy");
        reveal_strlit("size");
        reveal_strlit("src");
    }
    assert(stmt_text(YulStmt::Do(op3(Op::Mcopy, var("dst"@), var("src"@), var("size"@)))) =~= "mcopy(dst, src, size)"@) by {
        broadcast use group_texts;

        reveal_strlit("(");
        reveal_strlit(")");
        reveal_strlit(", ");
        reveal_strlit("dst");
        reveal_strlit("mcopy");
        reveal_strlit("mcopy(dst, src, size)");
        reveal_strlit("size");
        reveal_strlit("src");
    }
}

proof fn lemma_gum_memory_copy_text()
    ensures
        at(memory_fns_spec(), 334, 416, fn_text(gum_memory_copy_fn())),
{
    let l = memory_fns_spec();
    let l0 = "      function allocate_memory(size) -> ptr {\n          ptr := mload(0x40)\n          if iszero(ptr) { ptr := 0x80 }\n          mstore(0x40, add(ptr, size))\n      }\n\n      function gum_hash_slot(key, slot) -> hash_ptr {\n          mstore(0x00, key)\n          mstore(0x20, slot)\n          hash_ptr := keccak256(0x00, 0x40)\n      }\n\n      function gum_memory_copy(src, dst, size) {\n          mcopy(dst, src, size)\n      }\n"@;
    assert(l0.len() == 417) by {
        reveal_strlit("      function allocate_memory(size) -> ptr {\n          ptr := mload(0x40)\n          if iszero(ptr) { ptr := 0x80 }\n          mstore(0x40, add(ptr, size))\n      }\n\n      function gum_hash_slot(key, slot) -> hash_ptr {\n          mstore(0x00, key)\n          mstore(0x20, slot)\n          hash_ptr := keccak256(0x00, 0x40)\n      }\n\n      function gum_memory_copy(src, dst, size) {\n          mcopy(dst, src, size)\n      }\n");
    }
    lemma_gum_memory_copy_cuts();
    lemma_gum_memory_copy_pieces();
    let f334 = gum_memory_copy_fn();
    lemma_at_nothing(l, 376);
    let k1 = none();
    let s2 = YulStmt::Do(op3(Op::Mcopy, var("dst"@), var("src"@), var("size"@)));
    lemma_at_line(l, 376, 376, 387, 408, k1, "\n          "@, s2);
    let k3 = line(k1, "\n          "@, s2);
    let k4 = tail(k3, "\n      "@);
    assert(f334.body == k4);
    lemma_at_fn(l, 334, 376, 408, 415, f334);
}

proof fn lemma_memory_cuts()
    ensures
        at("      function allocate_memory(size) -> ptr {\n          ptr := mload(0x40)\n          if iszero(ptr) { ptr := 0x80 }\n          mstore(0x40, add(ptr, size))\n      }\n\n      function gum_hash_slot(key, slot) -> hash_ptr {\n          mstore(0x00, key)\n          mstore(0x20, slot)\n          hash_ptr := keccak256(0x00, 0x40)\n      }\n\n      function gum_memory_copy(src, dst, size) {\n          mcopy(dst, src, size)\n      }\n"@, 0, 6, "      "@),
        at("      function allocate_memory(size) -> ptr {\n          ptr := mload(0x40)\n          if iszero(ptr) { ptr := 0x80 }\n          mstore(0x40, add(ptr, size))\n      }\n\n      function gum_hash_slot(key, slot) -> hash_ptr {\n          mstore(0x00, key)\n          mstore(0x20, slot)\n          hash_ptr := keccak256(0x00, 0x40)\n      }\n\n      function gum_memory_copy(src, dst, size) {\n          mcopy(dst, src, size)\n      }\n"@, 162, 170, "\n\n      "@),
        at("      function allocate_memory(size) -> ptr {\n          ptr := mload(0x40)\n          if iszero(ptr) { ptr := 0x80 }\n          mstore(0x40, add(ptr, size))\n      }\n\n      function gum_hash_slot(key, slot) -> hash_ptr {\n          mstore(0x00, key)\n          mstore(0x20, slot)\n          hash_ptr := keccak256(0x00, 0x40)\n      }\n\n      function gum_memory_copy(src, dst, size) {\n          mcopy(dst, src, size)\n      }\n"@, 326, 334, "\n\n      "@),
        at("      function allocate_memory(size) -> ptr {\n          ptr := mload(0x40)\n          if iszero(ptr) { ptr := 0x80 }\n          mstore(0x40, add(ptr, size))\n      }\n\n      function gum_hash_slot(key, slot) -> hash_ptr {\n          mstore(0x00, key)\n          mstore(0x20, slot)\n          hash_ptr := keccak256(0x00, 0x40)\n      }\n\n      function gum_memory_copy(src, dst, size) {\n          mcopy(dst, src, size)\n      }\n"@, 416, 417, "\n"@),
{
    let l0 = "      function allocate_memory(size) -> ptr {\n          ptr := mload(0x40)\n          if iszero(ptr) { ptr := 0x80 }\n          mstore(0x40, add(ptr, size))\n      }\n\n      function gum_hash_slot(key, slot) -> hash_ptr {\n          mstore(0x00, key)\n          mstore(0x20, slot)\n          hash_ptr := keccak256(0x00, 0x40)\n      }\n\n      function gum_memory_copy(src, dst, size) {\n          mcopy(dst, src, size)\n      }\n"@;
    reveal_strlit("      function allocate_memory(size) -> ptr {\n          ptr := mload(0x40)\n          if iszero(ptr) { ptr := 0x80 }\n          mstore(0x40, add(ptr, size))\n      }\n\n      function gum_hash_slot(key, slot) -> hash_ptr {\n          mstore(0x00, key)\n          mstore(0x20, slot)\n          hash_ptr := keccak256(0x00, 0x40)\n      }\n\n      function gum_memory_copy(src, dst, size) {\n          mcopy(dst, src, size)\n      }\n");
    reveal_strlit("      ");
    reveal_strlit("\n\n      ");
    reveal_strlit("\n");
    assert(l0.subrange(0, 6) =~= "      "@);
    assert(l0.subrange(162, 170) =~= "\n\n      "@);
    assert(l0.subrange(326, 334) =~= "\n\n      "@);
    assert(l0.subrange(416, 417) =~= "\n"@);
}

/// The text of the memory functions is that of three functions.
pub proof fn lemma_memory_text()
    ensures
        memory_fns_spec() == "      "@ + fn_text(allocate_memory_fn()) + "\n\n      "@ + fn_text(gum_hash_slot_fn()) + "\n\n      "@ + fn_text(gum_memory_copy_fn()) + "\n"@,
{
    let l = memory_fns_spec();
    let l0 = "      function allocate_memory(size) -> ptr {\n          ptr := mload(0x40)\n          if iszero(ptr) { ptr := 0x80 }\n          mstore(0x40, add(ptr, size))\n      }\n\n      function gum_hash_slot(key, slot) -> hash_ptr {\n          mstore(0x00, key)\n          mstore(0x20, slot)\n          hash_ptr := keccak256(0x00, 0x40)\n      }\n\n      function gum_memory_copy(src, dst, size) {\n          mcopy(dst, src, size)\n      }\n"@;
    assert(l0.len() == 417) by {
        reveal_strlit("      function allocate_memory(size) -> ptr {\n          ptr := mload(0x40)\n          if iszero(ptr) { ptr := 0x80 }\n          mstore(0x40, add(ptr, size))\n      }\n\n      function gum_hash_slot(key, slot) -> hash_ptr {\n          mstore(0x00, key)\n          mstore(0x20, slot)\n          hash_ptr := keccak256(0x00, 0x40)\n      }\n\n      function gum_memory_copy(src, dst, size) {\n          mcopy(dst, src, size)\n      }\n");
    }
    lemma_memory_cuts();
    lemma_allocate_memory_text();
    lemma_gum_hash_slot_text();
    lemma_gum_memory_copy_text();
    lemma_at_add(l, 0, 6, 162, "      "@, fn_text(allocate_memory_fn()));
    lemma_at_add(l, 0, 162, 170, "      "@ + fn_text(allocate_memory_fn()), "\n\n      "@);
    lemma_at_add(l, 0, 170, 326, "      "@ + fn_text(allocate_memory_fn()) + "\n\n      "@, fn_text(gum_hash_slot_fn()));
    lemma_at_add(l, 0, 326, 334, "      "@ + fn_text(allocate_memory_fn()) + "\n\n      "@ + fn_text(gum_hash_slot_fn()), "\n\n      "@);
    lemma_at_add(l, 0, 334, 416, "      "@ + fn_text(allocate_memory_fn()) + "\n\n      "@ + fn_text(gum_hash_slot_fn()) + "\n\n      "@, fn_text(gum_memory_copy_fn()));
    lemma_at_add(l, 0, 416, 417, "      "@ + fn_text(allocate_memory_fn()) + "\n\n      "@ + fn_text(gum_hash_slot_fn()) + "\n\n      "@ + fn_text(gum_memory_copy_fn()), "\n"@);
    lemma_at_whole(l, "      "@ + fn_text(allocate_memory_fn()) + "\n\n      "@ + fn_text(gum_hash_slot_fn()) + "\n\n      "@ + fn_text(gum_memory_copy_fn()) + "\n"@);
}


/// The 64 bytes that stand for a key of a mapping and the mapping's own slot.
pub open spec fn entry_bytes(key: int, slot: int) -> Seq<u8> {
    word_bytes(key) + word_bytes(slot)
}

/// Entries of two mappings with different slots, or of one mapping with different keys, are
/// hashed from different bytes.
pub proof fn law_entries_are_apart(key: int, slot: int, other_key: int, other_slot: int)
    requires
        is_word(key),
        is_word(slot),
        is_word(other_key),
        is_word(other_slot),
        key != other_key || slot != other_slot,
    ensures
        entry_bytes(key, slot).len() == 64,
        entry_bytes(key, slot) != entry_bytes(other_key, other_slot),
{
    broadcast use lemma_bytes_len;
    let (a, b) = (entry_bytes(key, slot), entry_bytes(other_key, other_slot));
    assert(a.subrange(0, 32) =~= word_bytes(key));
    assert(b.subrange(0, 32) =~= word_bytes(other_key));
    assert(a.subrange(32, 64) =~= word_bytes(slot));
    assert(b.subrange(32, 64) =~= word_bytes(other_slot));
    if a == b {
        law_word_bytes_differ(key, other_key);
        law_word_bytes_differ(slot, other_slot);
    }
}

/// What `gum_hash_slot` does on a machine.
pub open spec fn hashes_key_and_slot(f: YulFn) -> bool {
    forall|p: Map<Seq<char>, YulFn>, m: Machine, vs: Seq<int>, d: nat|
        p.contains_key(f.name) && p[f.name] == f && d > 0 && vs.len() == 2 && is_word(vs[0])
            && is_word(vs[1]) ==> {
            let o = #[trigger] called(p, m, f.name, vs, d);
            &&& o.end == End::Next
            &&& o.v == from_bytes(keccak256(entry_bytes(vs[0], vs[1])))
            &&& o.m.store == m.store
            &&& o.m.temp == m.temp
            &&& o.m.vars == m.vars
            &&& forall|i: int| i < 0 || i >= 64 ==> byte_at(o.m.mem, i) == byte_at(m.mem, i)
        }
}

proof fn lemma_hash_slot(p: Map<Seq<char>, YulFn>, m: Machine, vs: Seq<int>, d: nat)
    requires
        p.contains_key("gum_hash_slot"@),
        p["gum_hash_slot"@] == gum_hash_slot_fn(),
        d > 0,
        vs.len() == 2,
        is_word(vs[0]),
        is_word(vs[1]),
    ensures
        ({
            let o = called(p, m, "gum_hash_slot"@, vs, d);
            &&& o.end == End::Next
            &&& o.v == from_bytes(keccak256(entry_bytes(vs[0], vs[1])))
            &&& o.m.store == m.store
            &&& o.m.temp == m.temp
            &&& o.m.vars == m.vars
            &&& forall|i: int| i < 0 || i >= 64 ==> byte_at(o.m.mem, i) == byte_at(m.mem, i)
        }),
{
    let (key, slot) = (vs[0], vs[1]);
    let f = gum_hash_slot_fn();
    let b = (d - 1) as nat;
    let m0 = Machine { vars: entry_vars(f, vs), ..m };
    let mem1 = put_bytes(m.mem, 0, word_bytes(key));
    let mem2 = put_bytes(mem1, 32, word_bytes(slot));
    let m1 = Machine { mem: mem1, ..m0 };
    let m2 = Machine { mem: mem2, ..m0 };
    let hash = from_bytes(keccak256(entry_bytes(key, slot)));
    let m3 = Machine { vars: m0.vars.insert("hash_ptr"@, hash), ..m2 };
    assert(m0.vars.contains_key("key"@) && m0.vars["key"@] == key && m0.vars.contains_key("slot"@)
        && m0.vars["slot"@] == slot) by {
        reveal_strlit("key");
        reveal_strlit("slot");
        assert(f.params[0].len() != f.params[1].len());
        lemma_entry(f, vs);
        assert(f.params[0] == "key"@);
        assert(f.params[1] == "slot"@);
    }
    let gap = "\n          "@;
    let s1 = YulStmt::Do(op2(Op::Mstore, num("0x00"@), var("key"@)));
    let s2 = YulStmt::Do(op2(Op::Mstore, num("0x20"@), var("slot"@)));
    let s3 = YulStmt::Put("hash_ptr"@, op2(Op::Keccak256, num("0x00"@), num("0x40"@)));
    let c1 = line(none(), gap, s1);
    let c2 = line(c1, gap, s2);
    let c3 = line(c2, gap, s3);
    lemma_numbers();
    assert(run(p, m0, c1, b) == (m1, End::Next)) by {
        broadcast use group_steps;

        reveal(apply);
    }
    assert(run(p, m0, c2, b) == (m2, End::Next)) by {
        broadcast use group_steps;

        reveal(apply);
    }
    assert(bytes_at(mem2, 0, 64) =~= entry_bytes(key, slot)) by {
        broadcast use lemma_bytes_len;

    }
    assert(run(p, m0, c3, b) == (m3, End::Next)) by {
        broadcast use group_steps;

        reveal(apply);
    }
    assert(run(p, m0, f.body, b) == (m3, End::Next)) by {
        broadcast use group_steps;

    }
    assert(forall|i: int| i < 0 || i >= 64 ==> byte_at(mem2, i) == byte_at(m.mem, i)) by {
        broadcast use lemma_bytes_len;

    }
}

/// The slot of a mapping's entry is the hash of the key followed by the mapping's own slot:
/// among the memory functions stands `gum_hash_slot`, and it computes that, touching no
/// storage and no memory but the first two words.
pub proof fn law_slot_of_an_entry()
    ensures
        exists|before: Seq<char>, f: YulFn, after: Seq<char>|
            #![trigger before + fn_text(f) + after]
            memory_fns_spec() == before + fn_text(f) + after && f.name == "gum_hash_slot"@
                && hashes_key_and_slot(f),
{
    lemma_memory_text();
    let f = gum_hash_slot_fn();
    assert forall|p: Map<Seq<char>, YulFn>, m: Machine, vs: Seq<int>, d: nat|
        p.contains_key(f.name) && p[f.name] == f && d > 0 && vs.len() == 2 && is_word(vs[0])
            && is_word(vs[1]) implies {
        let o = #[trigger] called(p, m, f.name, vs, d);
        &&& o.end == End::Next
        &&& o.v == from_bytes(keccak256(entry_bytes(vs[0], vs[1])))
        &&& o.m.store == m.store
        &&& o.m.temp == m.temp
        &&& o.m.vars == m.vars
        &&& forall|i: int| i < 0 || i >= 64 ==> byte_at(o.m.mem, i) == byte_at(m.mem, i)
    } by {
        lemma_hash_slot(p, m, vs, d);
    }
    let before = "      "@ + fn_text(allocate_memory_fn()) + "\n\n      "@;
    let after = "\n\n      "@ + fn_text(gum_memory_copy_fn()) + "\n"@;
    assert(memory_fns_spec() =~= before + fn_text(f) + after);
}

} // verus!
