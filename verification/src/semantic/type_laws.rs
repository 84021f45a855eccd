//! What the check of a statement demands of the types in it.
use crate::ast::{ExprV, SpannedV, StmtV, TypeV};
use crate::codegen::yul::{fixed_name, sint_name, uint_name};
use crate::semantic::assign::is_assignable_spec;
use crate::semantic::eval::{bool_type_spec, eval_binary_spec, numeric_type_spec, type_of_spec};
use crate::semantic::verify::{
    body_check, declared_local_spec, owner_class_spec, reject_storage_array_copy_spec,
    struct_array_field_spec, verify_assignment_spec, verify_branch_spec, verify_condition_spec,
    verify_loop_spec, verify_spec, verify_statement_inner_spec, ChkV, FnEnvV,
};
use crate::semantic::{is_infer_spec, lookup_below, lookup_spec, SemV};
use vstd::prelude::*;

verus! {

/// What a statement may use: the program and the scopes.
pub open spec fn seen(g: FnEnvV, st: ChkV) -> SemV {
    SemV { w: g.w, sc: st.sc }
}

/// Whether a value of an expression may stand where a type is expected.
pub open spec fn fits(h: SemV, e: ExprV, expected: TypeV) -> bool {
    type_of_spec(h, e) matches Ok(t) && is_assignable_spec(h, expected, t)
}

proof fn lemma_copy_keeps_scopes(g: FnEnvV, st: ChkV, e: ExprV, prefix: Seq<char>)
    ensures
        reject_storage_array_copy_spec(g, st, e, prefix).0 == st,
{
    reveal(reject_storage_array_copy_spec);
    reveal(owner_class_spec);
    reveal(struct_array_field_spec);
}

/// An assignment that passes the check gives a value that may stand for the target, and the
/// target is no constant.
pub proof fn law_assigned_values_fit(g: FnEnvV, st: ChkV, target: ExprV, value: ExprV, s: SpannedV)
    requires
        s.node == (StmtV::Assignment { target, value }),
        verify_spec(g, st, s).1 is Ok,
    ensures
        ({
            let h = seen(g, st);
            &&& type_of_spec(h, target) is Ok
            &&& fits(h, value, type_of_spec(h, target)->Ok_0)
            &&& target matches ExprV::Identifier(n) ==> !(lookup_spec(
                h.sc,
                n,
            ) matches Some(sym) && sym.is_const)
        }),
{
    reveal(verify_statement_inner_spec);
    reveal(verify_assignment_spec);
    assert forall|ext: bool, p: Seq<char>| #[trigger]
        reject_storage_array_copy_spec(g, (ChkV { sc: st.sc, ext }), value, p).0 == (ChkV {
            sc: st.sc,
            ext,
        }) by {
        lemma_copy_keeps_scopes(g, ChkV { sc: st.sc, ext }, value, p);
    }
}

/// A declaration with a type and a value passes the check only where the value may stand for
/// the type; the name is then known with that type.
pub proof fn law_initial_values_fit(g: FnEnvV, st: ChkV, s: SpannedV, t: TypeV, value: ExprV)
    requires
        s.node matches StmtV::VarDecl { type_def, value: v, .. } && type_def == t && v == Some(
            value,
        ) && !is_infer_spec(t),
        verify_spec(g, st, s).1 is Ok,
        st.sc.len() > 0,
    ensures
        fits(seen(g, st), value, t),
        ({
            let after = verify_spec(g, st, s).0;
            let name = s.node->VarDecl_name;
            lookup_spec(after.sc, name) matches Some(sym) && sym.type_def == t && sym.is_const
                == s.node->VarDecl_is_const
        }),
{
    reveal(verify_statement_inner_spec);
    reveal(declared_local_spec);
    assert forall|ext: bool, p: Seq<char>| #[trigger]
        reject_storage_array_copy_spec(g, (ChkV { sc: st.sc, ext }), value, p).0 == (ChkV {
            sc: st.sc,
            ext,
        }) by {
        lemma_copy_keeps_scopes(g, ChkV { sc: st.sc, ext }, value, p);
    }
}

/// The condition of an `if` or of a `while` that passes the check may stand for a truth.
pub proof fn law_conditions_are_truths(g: FnEnvV, st: ChkV, s: SpannedV, condition: ExprV)
    requires
        (s.node matches StmtV::IfElse { condition: c, .. } && c == condition) || (
        s.node matches StmtV::WhileLoop { condition: c, .. } && c == condition),
        verify_spec(g, st, s).1 is Ok,
    ensures
        fits(seen(g, st), condition, TypeV::Primitive("bool"@)),
{
    reveal(verify_statement_inner_spec);
    reveal(verify_branch_spec);
    reveal(verify_loop_spec);
    reveal(verify_condition_spec);
}

/// A body passes the check only where each of its statements does, in the scopes that those
/// before it leave.
pub proof fn law_every_statement_passes(g: FnEnvV, st: ChkV, body: Seq<SpannedV>, n: nat, i: nat)
    requires
        i < n <= body.len(),
        body_check(g, st, body, n).1 is Ok,
    ensures
        body_check(g, st, body, i).1 is Ok,
        verify_spec(g, body_check(g, st, body, i).0, body[i as int]).1 is Ok,
    decreases n,
{
    if i < n - 1 {
        law_every_statement_passes(g, st, body, (n - 1) as nat, i);
    }
}

/// Whether a name is that of a built-in type and of nothing else.
pub open spec fn built_in(h: SemV, n: Seq<char>) -> bool {
    (uint_name(n) || sint_name(n) || fixed_name(n) || n == "bool"@) && !h.w.classes.contains_key(n)
        && !h.w.enums.contains_key(n)
}

proof fn lemma_built_in_names()
    ensures
        forall|n: Seq<char>| #[trigger]
            uint_name(n) ==> !sint_name(n) && !fixed_name(n) && n != "bool"@ && n != "All"@,
        forall|n: Seq<char>| #[trigger] sint_name(n) ==> !fixed_name(n) && n != "bool"@ && n != "All"@,
        forall|n: Seq<char>| #[trigger] fixed_name(n) ==> n != "bool"@ && n != "All"@,
        "bool"@ != "All"@,
{
    reveal_strlit("u8");
    reveal_strlit("u16");
    reveal_strlit("u32");
    reveal_strlit("u64");
    reveal_strlit("u128");
    reveal_strlit("u256");
    reveal_strlit("i8");
    reveal_strlit("i16");
    reveal_strlit("i32");
    reveal_strlit("i64");
    reveal_strlit("i128");
    reveal_strlit("i256");
    reveal_strlit("f32");
    reveal_strlit("f64");
    reveal_strlit("bool");
    reveal_strlit("All");
    assert forall|n: Seq<char>| #[trigger] uint_name(n) implies n[0] == 'u' by {}
    assert forall|n: Seq<char>| #[trigger] sint_name(n) implies n[0] == 'i' by {}
    assert forall|n: Seq<char>| #[trigger] fixed_name(n) implies n[0] == 'f' by {}
    assert("bool"@[0] == 'b' && "All"@[0] == 'A');
}

/// Between built-in types, a value stands for another type only as a number of the same
/// kind: unsigned for unsigned, signed for signed, and a word for a fixed-point number and
/// back. A truth stands for a truth alone.
pub proof fn law_built_in_types(h: SemV, e: Seq<char>, p: Seq<char>)
    requires
        built_in(h, e),
        built_in(h, p),
    ensures
        is_assignable_spec(h, TypeV::Primitive(e), TypeV::Primitive(p)) <==> (e == p || (uint_name(e)
            && uint_name(p)) || (sint_name(e) && sint_name(p)) || (fixed_name(e) && p == "u256"@)
            || (e == "u256"@ && fixed_name(p))),
        e == "bool"@ ==> (is_assignable_spec(h, TypeV::Primitive(e), TypeV::Primitive(p)) <==> p
            == "bool"@),
        p == "bool"@ ==> (is_assignable_spec(h, TypeV::Primitive(e), TypeV::Primitive(p)) <==> e
            == "bool"@),
        sint_name(p) && uint_name(e) ==> !is_assignable_spec(
            h,
            TypeV::Primitive(e),
            TypeV::Primitive(p),
        ),
        uint_name(p) && sint_name(e) ==> !is_assignable_spec(
            h,
            TypeV::Primitive(e),
            TypeV::Primitive(p),
        ),
{
    lemma_built_in_names();
    assert(uint_name("u256"@));
}

/// A name that is used is known: as a variable of some scope, as a truth, or as an enum or a
/// class.
pub proof fn law_used_names_are_known(h: SemV, name: Seq<char>)
    ensures
        type_of_spec(h, ExprV::Identifier(name)) is Ok <==> ((exists|i: int|
            0 <= i < h.sc.len() && (#[trigger] h.sc[i]).contains_key(name)) || name == "true"@
            || name == "false"@ || h.w.enums.contains_key(name) || h.w.classes.contains_key(name)),
{
    reveal(type_of_spec);
    lemma_lookup(h, name, h.sc.len() as int);
}

proof fn lemma_lookup(h: SemV, name: Seq<char>, n: int)
    requires
        0 <= n <= h.sc.len(),
    ensures
        lookup_below(h.sc, n, name) is Some <==> exists|i: int|
            0 <= i < n && (#[trigger] h.sc[i]).contains_key(name),
    decreases n,
{
    if n > 0 {
        lemma_lookup(h, name, n - 1);
        if lookup_below(h.sc, n, name) is Some && !h.sc[n - 1].contains_key(name) {
            let i = choose|i: int| 0 <= i < n - 1 && (#[trigger] h.sc[i]).contains_key(name);
            assert(h.sc[i].contains_key(name));
        }
    }
}

/// Whether a type is a number's.
pub open spec fn number_type(t: TypeV) -> bool {
    t matches TypeV::Primitive(n) && (uint_name(n) || sint_name(n) || fixed_name(n))
}

/// Arithmetic is on numbers and gives the type of its left operand; the logical operators
/// are on truths; a comparison is between types of which one may stand for the other. The
/// last two give a truth.
pub proof fn law_operands(h: SemV, left: ExprV, right: ExprV, operator: Seq<char>)
    ensures
        ({
            let e = ExprV::BinaryOp { left: Box::new(left), operator, right: Box::new(right) };
            let truth = TypeV::Primitive("bool"@);
            type_of_spec(h, e) matches Ok(t) ==> {
                &&& type_of_spec(h, left) is Ok
                &&& type_of_spec(h, right) is Ok
                &&& ({
                    let (l, r) = (type_of_spec(h, left)->Ok_0, type_of_spec(h, right)->Ok_0);
                    &&& operator == "+"@ || operator == "-"@ || operator == "*"@ || operator
                        == "/"@ || operator == "%"@ || operator == "**"@ ==> number_type(l)
                        && number_type(r) && t == l
                    &&& operator == "&&"@ || operator == "||"@ ==> l == truth && r == truth && t
                        == truth
                    &&& operator == "=="@ || operator == "!="@ || operator == "<"@ || operator
                        == "<="@ || operator == ">"@ || operator == ">="@ ==> (is_assignable_spec(
                        h,
                        l,
                        r,
                    ) || is_assignable_spec(h, r, l)) && t == truth
                })
            }
        }),
{
    let e = ExprV::BinaryOp { left: Box::new(left), operator, right: Box::new(right) };
    reveal_with_fuel(type_of_spec, 2);
    reveal_with_fuel(eval_binary_spec, 2);
    reveal(numeric_type_spec);
    reveal(bool_type_spec);
    assert(type_of_spec(h, e) == eval_binary_spec(h, e));
    reveal_strlit("+");
    reveal_strlit("-");
    reveal_strlit("*");
    reveal_strlit("/");
    reveal_strlit("%");
    reveal_strlit("**");
    reveal_strlit("&&");
    reveal_strlit("||");
    reveal_strlit("==");
    reveal_strlit("!=");
    reveal_strlit("<");
    reveal_strlit("<=");
    reveal_strlit(">");
    reveal_strlit(">=");
    assert("&&"@[0] == '&' && "||"@[0] == '|' && "=="@[0] == '=' && "!="@[0] == '!' && "<"@[0]
        == '<' && "<="@[0] == '<' && ">"@[0] == '>' && ">="@[0] == '>');
    assert("+"@[0] == '+' && "-"@[0] == '-' && "*"@[0] == '*' && "/"@[0] == '/' && "%"@[0] == '%'
        && "**"@[0] == '*');
}

} // verus!
