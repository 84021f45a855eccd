//! The bound on how deep rules call each other cuts nothing off: no rule calls itself
//! before a character has been read.
use crate::parser::grammar::{
    closing, depth_for, in_class, match_spec, parse_rule_spec, rule_spec, run_end, skip, Class,
    Peg,
};
use crate::parser::node::Rule;
use crate::text::{lemma_next_char, next_char};
use vstd::prelude::*;

verus! {

/// How many rules a rule can go through, itself with them, before a character is read.
pub open spec fn rank(r: Rule) -> nat {
    match r {
        Rule::ClassDecl => 2,
        Rule::GenericParam => 2,
        Rule::Variant => 2,
        Rule::FnDecl => 2,
        Rule::GenericType => 2,
        Rule::NestedIf => 2,
        Rule::MatchArm => 2,
        Rule::FnCall => 2,
        Rule::Suffix => 2,
        Rule::Declaration => 3,
        Rule::TypeKeyword => 3,
        Rule::ElseIf => 3,
        Rule::MadeType => 3,
        Rule::DeclUnit => 4,
        Rule::ClassField => 4,
        Rule::Param => 4,
        Rule::VarDecl => 4,
        Rule::Instantiation => 4,
        Rule::MemberUnit => 5,
        Rule::ParamList => 5,
        Rule::Atom => 5,
        Rule::Term => 6,
        Rule::Assignment => 7,
        Rule::CompoundAssignment => 7,
        Rule::Expr => 7,
        Rule::ExprStmt => 8,
        Rule::Statement => 9,
        Rule::StatementUnit => 10,
        _ => 1,
    }
}

/// Whether a match reads at least one character.
pub open spec fn eats(e: Peg) -> bool
    decreases e,
{
    match e {
        Peg::Lit(t) => t@.len() > 0,
        Peg::Key(t) => t@.len() > 0,
        Peg::One(_) => true,
        Peg::Run(_) => false,
        Peg::Balanced => true,
        Peg::End => false,
        Peg::Cat(a, b) => eats(*a) || eats(*b),
        Peg::Join(a, b) => eats(*a) || eats(*b),
        Peg::Or(a, b) => eats(*a) && eats(*b),
        Peg::Many(_) => false,
        Peg::Opt(_) => false,
        Peg::Not(_) => false,
        Peg::Call(_) => true,
    }
}

/// Whether every rule that is called before a character has been read has a rank below
/// `k`.
pub open spec fn heads(e: Peg, k: nat) -> bool
    decreases e,
{
    match e {
        Peg::Cat(a, b) => heads(*a, k) && (eats(*a) || heads(*b, k)),
        Peg::Join(a, b) => heads(*a, k) && (eats(*a) || heads(*b, k)),
        Peg::Or(a, b) => heads(*a, k) && heads(*b, k),
        Peg::Many(a) => heads(*a, k),
        Peg::Opt(a) => heads(*a, k),
        Peg::Not(a) => heads(*a, k),
        Peg::Call(r) => rank(r) < k,
        _ => true,
    }
}

proof fn lemma_heads_all(e: Peg)
    ensures
        heads(e, 17),
    decreases e,
{
    match e {
        Peg::Cat(a, b) => {
            lemma_heads_all(*a);
            lemma_heads_all(*b);
        },
        Peg::Join(a, b) => {
            lemma_heads_all(*a);
            lemma_heads_all(*b);
        },
        Peg::Or(a, b) => {
            lemma_heads_all(*a);
            lemma_heads_all(*b);
        },
        Peg::Many(a) => {
            lemma_heads_all(*a);
        },
        Peg::Opt(a) => {
            lemma_heads_all(*a);
        },
        Peg::Not(a) => {
            lemma_heads_all(*a);
        },
        _ => {},
    }
}

/// No word and no sign of the grammar is empty.
proof fn lemma_words()
    ensures
        "!"@.len() > 0,
        "!="@.len() > 0,
        "\""@.len() > 0,
        "%"@.len() > 0,
        "%="@.len() > 0,
        "&"@.len() > 0,
        "&&"@.len() > 0,
        "&="@.len() > 0,
        "("@.len() > 0,
        ")"@.len() > 0,
        "*"@.len() > 0,
        "**"@.len() > 0,
        "**="@.len() > 0,
        "*="@.len() > 0,
        "+"@.len() > 0,
        "+="@.len() > 0,
        ","@.len() > 0,
        "-"@.len() > 0,
        "-="@.len() > 0,
        "->"@.len() > 0,
        "."@.len() > 0,
        "/"@.len() > 0,
        "/="@.len() > 0,
        "0x"@.len() > 0,
        ";"@.len() > 0,
        "<"@.len() > 0,
        "<<"@.len() > 0,
        "<<="@.len() > 0,
        "<="@.len() > 0,
        "="@.len() > 0,
        "=="@.len() > 0,
        ">"@.len() > 0,
        ">="@.len() > 0,
        ">>"@.len() > 0,
        ">>="@.len() > 0,
        "["@.len() > 0,
        "]"@.len() > 0,
        "^"@.len() > 0,
        "^="@.len() > 0,
        "assert"@.len() > 0,
        "call"@.len() > 0,
        "catch"@.len() > 0,
        "class"@.len() > 0,
        "const"@.len() > 0,
        "contract"@.len() > 0,
        "delete"@.len() > 0,
        "else"@.len() > 0,
        "enum"@.len() > 0,
        "error"@.len() > 0,
        "export"@.len() > 0,
        "extern"@.len() > 0,
        "f\""@.len() > 0,
        "flip"@.len() > 0,
        "fn"@.len() > 0,
        "for"@.len() > 0,
        "if"@.len() > 0,
        "in"@.len() > 0,
        "interface"@.len() > 0,
        "match"@.len() > 0,
        "mut"@.len() > 0,
        "new"@.len() > 0,
        "once"@.len() > 0,
        "payable"@.len() > 0,
        "return"@.len() > 0,
        "revert"@.len() > 0,
        "self"@.len() > 0,
        "super"@.len() > 0,
        "transient"@.len() > 0,
        "try"@.len() > 0,
        "unsafe"@.len() > 0,
        "use"@.len() > 0,
        "var"@.len() > 0,
        "while"@.len() > 0,
        "{"@.len() > 0,
        "|"@.len() > 0,
        "|="@.len() > 0,
        "||"@.len() > 0,
        "}"@.len() > 0,
{
    reveal_strlit("!");
    reveal_strlit("!=");
    reveal_strlit("\"");
    reveal_strlit("%");
    reveal_strlit("%=");
    reveal_strlit("&");
    reveal_strlit("&&");
    reveal_strlit("&=");
    reveal_strlit("(");
    reveal_strlit(")");
    reveal_strlit("*");
    reveal_strlit("**");
    reveal_strlit("**=");
    reveal_strlit("*=");
    reveal_strlit("+");
    reveal_strlit("+=");
    reveal_strlit(",");
    reveal_strlit("-");
    reveal_strlit("-=");
    reveal_strlit("->");
    reveal_strlit(".");
    reveal_strlit("/");
    reveal_strlit("/=");
    reveal_strlit("0x");
    reveal_strlit(";");
    reveal_strlit("<");
    reveal_strlit("<<");
    reveal_strlit("<<=");
    reveal_strlit("<=");
    reveal_strlit("=");
    reveal_strlit("==");
    reveal_strlit(">");
    reveal_strlit(">=");
    reveal_strlit(">>");
    reveal_strlit(">>=");
    reveal_strlit("[");
    reveal_strlit("]");
    reveal_strlit("^");
    reveal_strlit("^=");
    reveal_strlit("assert");
    reveal_strlit("call");
    reveal_strlit("catch");
    reveal_strlit("class");
    reveal_strlit("const");
    reveal_strlit("contract");
    reveal_strlit("delete");
    reveal_strlit("else");
    reveal_strlit("enum");
    reveal_strlit("error");
    reveal_strlit("export");
    reveal_strlit("extern");
    reveal_strlit("f\"");
    reveal_strlit("flip");
    reveal_strlit("fn");
    reveal_strlit("for");
    reveal_strlit("if");
    reveal_strlit("in");
    reveal_strlit("interface");
    reveal_strlit("match");
    reveal_strlit("mut");
    reveal_strlit("new");
    reveal_strlit("once");
    reveal_strlit("payable");
    reveal_strlit("return");
    reveal_strlit("revert");
    reveal_strlit("self");
    reveal_strlit("super");
    reveal_strlit("transient");
    reveal_strlit("try");
    reveal_strlit("unsafe");
    reveal_strlit("use");
    reveal_strlit("var");
    reveal_strlit("while");
    reveal_strlit("{");
    reveal_strlit("|");
    reveal_strlit("|=");
    reveal_strlit("||");
    reveal_strlit("}");
}

#[verifier::rlimit(50)]
proof fn lemma_table_0(r: Rule)
    requires
        r == Rule::DeclUnit || r == Rule::MemberUnit || r == Rule::StatementUnit || r == Rule::Declaration || r == Rule::UseDecl || r == Rule::Path || r == Rule::ClassDecl || r == Rule::IsGlobal || r == Rule::IsExtern,
    ensures
        eats(rule_spec(r)),
        heads(rule_spec(r), rank(r)),
{
    lemma_words();
    reveal_with_fuel(eats, 8);
    reveal_with_fuel(heads, 8);
}

#[verifier::rlimit(50)]
proof fn lemma_table_1(r: Rule)
    requires
        r == Rule::GenericParams || r == Rule::GenericParam || r == Rule::Parents || r == Rule::ClassBody || r == Rule::ClassField || r == Rule::IsConst || r == Rule::IsTransient || r == Rule::IsMut || r == Rule::EnumDecl,
    ensures
        eats(rule_spec(r)),
        heads(rule_spec(r), rank(r)),
{
    lemma_words();
    reveal_with_fuel(eats, 10);
    reveal_with_fuel(heads, 10);
}

#[verifier::rlimit(50)]
proof fn lemma_table_2(r: Rule)
    requires
        r == Rule::Variant || r == Rule::ErrorDecl || r == Rule::FnDecl || r == Rule::FnAttrs || r == Rule::Modifier || r == Rule::ParamList || r == Rule::SelfParam || r == Rule::Param || r == Rule::Ident,
    ensures
        eats(rule_spec(r)),
        heads(rule_spec(r), rank(r)),
{
    lemma_words();
    reveal_with_fuel(eats, 12);
    reveal_with_fuel(heads, 12);
}

#[verifier::rlimit(50)]
proof fn lemma_table_3(r: Rule)
    requires
        r == Rule::TypeKeyword || r == Rule::TypeIdent || r == Rule::GenericType || r == Rule::ArrayType || r == Rule::Number || r == Rule::Block || r == Rule::Statement || r == Rule::UnsafeBlock || r == Rule::AssertStmt,
    ensures
        eats(rule_spec(r)),
        heads(rule_spec(r), rank(r)),
{
    lemma_words();
    reveal_with_fuel(eats, 17);
    reveal_with_fuel(heads, 17);
}

#[verifier::rlimit(50)]
proof fn lemma_table_4(r: Rule)
    requires
        r == Rule::ReturnStmt || r == Rule::RevertStmt || r == Rule::DeleteStmt || r == Rule::IfStmt || r == Rule::ElseIf || r == Rule::NestedIf || r == Rule::ForStmt || r == Rule::WhileStmt || r == Rule::TryStmt,
    ensures
        eats(rule_spec(r)),
        heads(rule_spec(r), rank(r)),
{
    lemma_words();
    reveal_with_fuel(eats, 8);
    reveal_with_fuel(heads, 8);
}

#[verifier::rlimit(50)]
proof fn lemma_table_5(r: Rule)
    requires
        r == Rule::MatchStmt || r == Rule::MatchArm || r == Rule::BitwiseFlip || r == Rule::CallStmt || r == Rule::VarDecl || r == Rule::VarKw || r == Rule::Assignment || r == Rule::CompoundAssignment || r == Rule::CompoundOp,
    ensures
        eats(rule_spec(r)),
        heads(rule_spec(r), rank(r)),
{
    lemma_words();
    reveal_with_fuel(eats, 12);
    reveal_with_fuel(heads, 12);
}

#[verifier::rlimit(50)]
proof fn lemma_table_6(r: Rule)
    requires
        r == Rule::ExprStmt || r == Rule::Expr || r == Rule::BinOp || r == Rule::Term || r == Rule::UnaryOp || r == Rule::Atom || r == Rule::StringLiteral || r == Rule::FStringLiteral || r == Rule::ParenExpr,
    ensures
        eats(rule_spec(r)),
        heads(rule_spec(r), rank(r)),
{
    lemma_words();
    reveal_with_fuel(eats, 20);
    reveal_with_fuel(heads, 20);
}

#[verifier::rlimit(50)]
proof fn lemma_table_7(r: Rule)
    requires
        r == Rule::ArrayLiteral || r == Rule::Instantiation || r == Rule::MadeType || r == Rule::FnCall || r == Rule::Suffix || r == Rule::MethodAccess || r == Rule::PropertyAccess || r == Rule::IndexAccess,
    ensures
        eats(rule_spec(r)),
        heads(rule_spec(r), rank(r)),
{
    lemma_words();
    reveal_with_fuel(eats, 11);
    reveal_with_fuel(heads, 11);
}

/// Every rule reads something, and calls rules of lower rank only before it does.
proof fn lemma_table(r: Rule)
    ensures
        eats(rule_spec(r)),
        heads(rule_spec(r), rank(r)),
{
    match r {
        Rule::DeclUnit => lemma_table_0(r),
        Rule::MemberUnit => lemma_table_0(r),
        Rule::StatementUnit => lemma_table_0(r),
        Rule::Declaration => lemma_table_0(r),
        Rule::UseDecl => lemma_table_0(r),
        Rule::Path => lemma_table_0(r),
        Rule::ClassDecl => lemma_table_0(r),
        Rule::IsGlobal => lemma_table_0(r),
        Rule::IsExtern => lemma_table_0(r),
        Rule::GenericParams => lemma_table_1(r),
        Rule::GenericParam => lemma_table_1(r),
        Rule::Parents => lemma_table_1(r),
        Rule::ClassBody => lemma_table_1(r),
        Rule::ClassField => lemma_table_1(r),
        Rule::IsConst => lemma_table_1(r),
        Rule::IsTransient => lemma_table_1(r),
        Rule::IsMut => lemma_table_1(r),
        Rule::EnumDecl => lemma_table_1(r),
        Rule::Variant => lemma_table_2(r),
        Rule::ErrorDecl => lemma_table_2(r),
        Rule::FnDecl => lemma_table_2(r),
        Rule::FnAttrs => lemma_table_2(r),
        Rule::Modifier => lemma_table_2(r),
        Rule::ParamList => lemma_table_2(r),
        Rule::SelfParam => lemma_table_2(r),
        Rule::Param => lemma_table_2(r),
        Rule::Ident => lemma_table_2(r),
        Rule::TypeKeyword => lemma_table_3(r),
        Rule::TypeIdent => lemma_table_3(r),
        Rule::GenericType => lemma_table_3(r),
        Rule::ArrayType => lemma_table_3(r),
        Rule::Number => lemma_table_3(r),
        Rule::Block => lemma_table_3(r),
        Rule::Statement => lemma_table_3(r),
        Rule::UnsafeBlock => lemma_table_3(r),
        Rule::AssertStmt => lemma_table_3(r),
        Rule::ReturnStmt => lemma_table_4(r),
        Rule::RevertStmt => lemma_table_4(r),
        Rule::DeleteStmt => lemma_table_4(r),
        Rule::IfStmt => lemma_table_4(r),
        Rule::ElseIf => lemma_table_4(r),
        Rule::NestedIf => lemma_table_4(r),
        Rule::ForStmt => lemma_table_4(r),
        Rule::WhileStmt => lemma_table_4(r),
        Rule::TryStmt => lemma_table_4(r),
        Rule::MatchStmt => lemma_table_5(r),
        Rule::MatchArm => lemma_table_5(r),
        Rule::BitwiseFlip => lemma_table_5(r),
        Rule::CallStmt => lemma_table_5(r),
        Rule::VarDecl => lemma_table_5(r),
        Rule::VarKw => lemma_table_5(r),
        Rule::Assignment => lemma_table_5(r),
        Rule::CompoundAssignment => lemma_table_5(r),
        Rule::CompoundOp => lemma_table_5(r),
        Rule::ExprStmt => lemma_table_6(r),
        Rule::Expr => lemma_table_6(r),
        Rule::BinOp => lemma_table_6(r),
        Rule::Term => lemma_table_6(r),
        Rule::UnaryOp => lemma_table_6(r),
        Rule::Atom => lemma_table_6(r),
        Rule::StringLiteral => lemma_table_6(r),
        Rule::FStringLiteral => lemma_table_6(r),
        Rule::ParenExpr => lemma_table_6(r),
        Rule::ArrayLiteral => lemma_table_7(r),
        Rule::Instantiation => lemma_table_7(r),
        Rule::MadeType => lemma_table_7(r),
        Rule::FnCall => lemma_table_7(r),
        Rule::Suffix => lemma_table_7(r),
        Rule::MethodAccess => lemma_table_7(r),
        Rule::PropertyAccess => lemma_table_7(r),
        Rule::IndexAccess => lemma_table_7(r),
    }
}

proof fn lemma_run(s: Seq<char>, p: int, k: Class)
    requires
        0 <= p <= s.len(),
    ensures
        p <= run_end(s, p, k) <= s.len(),
    decreases s.len() - p,
{
    if p < s.len() && in_class(s[p], k) {
        lemma_run(s, p + 1, k);
    }
}

proof fn lemma_skip(s: Seq<char>, p: int)
    requires
        0 <= p <= s.len(),
    ensures
        p <= skip(s, p) <= s.len(),
    decreases s.len() - p,
{
    if p < s.len() {
        if s[p] == ' ' || s[p] == '\t' || s[p] == '\r' || s[p] == '\n' {
            lemma_skip(s, p + 1);
        } else if s[p] == '/' && p + 1 < s.len() && s[p + 1] == '/' {
            lemma_next_char(s, p, '\n');
            if next_char(s, p, '\n') > p {
                lemma_skip(s, next_char(s, p, '\n'));
            }
        }
    }
}

proof fn lemma_closing(s: Seq<char>, p: int, depth: nat)
    requires
        0 <= p <= s.len(),
    ensures
        closing(s, p, depth) matches Some(q) ==> p < q <= s.len(),
    decreases s.len() - p,
{
    if p < s.len() {
        if s[p] == '{' {
            lemma_closing(s, p + 1, depth + 1);
        } else if s[p] == '}' {
            if depth > 1 {
                lemma_closing(s, p + 1, (depth - 1) as nat);
            }
        } else {
            lemma_closing(s, p + 1, depth);
        }
    }
}

/// A match never ends before it begins, nor behind the text; and where something must be
/// read, something is.
proof fn lemma_moves(e: Peg, s: Seq<char>, p: int, d: nat)
    requires
        0 <= p <= s.len(),
    ensures
        match_spec(e, s, p, d).out matches Some((q, _)) ==> p <= q <= s.len() && (eats(e) ==> p
            < q),
    decreases d, e, s.len() - p,
{
    match e {
        Peg::Run(k) => {
            lemma_run(s, p, k);
        },
        Peg::Balanced => {
            lemma_closing(s, p, 0);
        },
        Peg::Cat(a, b) => {
            lemma_moves(*a, s, p, d);
            match match_spec(*a, s, p, d).out {
                Some((q, _)) => {
                    lemma_skip(s, q);
                    lemma_moves(*b, s, skip(s, q), d);
                },
                None => {},
            }
        },
        Peg::Join(a, b) => {
            lemma_moves(*a, s, p, d);
            match match_spec(*a, s, p, d).out {
                Some((q, _)) => {
                    lemma_moves(*b, s, q, d);
                },
                None => {},
            }
        },
        Peg::Or(a, b) => {
            lemma_moves(*a, s, p, d);
            lemma_moves(*b, s, p, d);
        },
        Peg::Many(a) => {
            lemma_moves(*a, s, p, d);
            match match_spec(*a, s, p, d).out {
                Some((q, _)) => {
                    let t = skip(s, q);
                    if p < q && p < t <= s.len() {
                        lemma_skip(s, q);
                        lemma_moves(e, s, t, d);
                    }
                },
                None => {},
            }
        },
        Peg::Opt(a) => {
            lemma_moves(*a, s, p, d);
        },
        Peg::Call(r) => {
            if d > 0 {
                lemma_table(r);
                lemma_moves(rule_spec(r), s, p, (d - 1) as nat);
            }
        },
        _ => {},
    }
}

/// Two bounds that both leave room give the same match.
proof fn lemma_same(e: Peg, s: Seq<char>, p: int, k: nat, d1: nat, d2: nat)
    requires
        0 <= p <= s.len(),
        1 <= k <= 17,
        heads(e, k),
        d1 >= k - 1 + 16 * (s.len() - p),
        d2 >= k - 1 + 16 * (s.len() - p),
    ensures
        match_spec(e, s, p, d1) == match_spec(e, s, p, d2),
    decreases d1, e, s.len() - p,
{
    match e {
        Peg::Cat(a, b) => {
            lemma_same(*a, s, p, k, d1, d2);
            lemma_moves(*a, s, p, d1);
            match match_spec(*a, s, p, d1).out {
                Some((q, _)) => {
                    lemma_skip(s, q);
                    let t = skip(s, q);
                    if t > p {
                        lemma_heads_all(*b);
                        lemma_same(*b, s, t, 17, d1, d2);
                    } else {
                        lemma_same(*b, s, t, k, d1, d2);
                    }
                },
                None => {},
            }
        },
        Peg::Join(a, b) => {
            lemma_same(*a, s, p, k, d1, d2);
            lemma_moves(*a, s, p, d1);
            match match_spec(*a, s, p, d1).out {
                Some((q, _)) => {
                    if q > p {
                        lemma_heads_all(*b);
                        lemma_same(*b, s, q, 17, d1, d2);
                    } else {
                        lemma_same(*b, s, q, k, d1, d2);
                    }
                },
                None => {},
            }
        },
        Peg::Or(a, b) => {
            lemma_same(*a, s, p, k, d1, d2);
            lemma_same(*b, s, p, k, d1, d2);
        },
        Peg::Many(a) => {
            lemma_same(*a, s, p, k, d1, d2);
            match match_spec(*a, s, p, d1).out {
                Some((q, _)) => {
                    let t = skip(s, q);
                    if p < q && p < t <= s.len() {
                        lemma_heads_all(e);
                        lemma_same(e, s, t, 17, d1, d2);
                    }
                },
                None => {},
            }
        },
        Peg::Opt(a) => {
            lemma_same(*a, s, p, k, d1, d2);
        },
        Peg::Not(a) => {
            lemma_same(*a, s, p, k, d1, d2);
        },
        Peg::Call(r) => {
            lemma_table(r);
            lemma_same(rule_spec(r), s, p, rank(r), (d1 - 1) as nat, (d2 - 1) as nat);
        },
        _ => {},
    }
}

/// However deep rules were allowed to call each other beyond the bound, a text would be
/// read the same way.
pub proof fn law_depth_is_enough(r: Rule, s: Seq<char>, d: nat)
    requires
        d >= depth_for(s.len()),
    ensures
        match_spec(Peg::Call(r), s, skip(s, 0), d) == parse_rule_spec(r, s),
{
    lemma_skip(s, 0);
    lemma_heads_all(Peg::Call(r));
    lemma_same(Peg::Call(r), s, skip(s, 0), 17, d, depth_for(s.len()));
}

} // verus!
