//! From what the grammar has matched to statements and declarations.
use crate::ast::{
    arms_v, body_v, fields_v, generics_v, methods_v, opt_expr_v, opt_type_v, params_v, variants_v,
    ArmV, ClassDecl, ClassField, ClassV, DeclV, Declaration, EnumDecl, EnumV, EnumVariant,
    ErrorDecl, Expr, ExprV, FieldV, FnDecl, FnV, GenericParam, GenericV, MatchArm, ParamV,
    Parameter, Spanned, SpannedV, Statement, StmtV, Type, TypeV, UseDecl, VariantV,
};
use crate::parser::exprs::{
    expr_of, exprs_of, parse_expr, parse_exprs, parse_term, parse_type, string_depth, term_of,
    type_of_node, unknown, unknown_term, unknown_type,
};
use crate::parser::node::{nodes_v, Node, NodeV, Rule};
use crate::text::{chars_of, opt_pos, slice_text, texts};
use vstd::prelude::*;

verus! {

broadcast use {crate::ast::group_views, crate::parser::node::group_nodes};

/// Whether one of the first `n` nodes was matched by a rule.
pub open spec fn any_of(ks: Seq<NodeV>, r: Rule, n: nat) -> bool
    decreases n,
{
    n > 0 && (ks[n - 1].rule == r || any_of(ks, r, (n - 1) as nat))
}

/// The last of the first `n` nodes that a rule matched.
pub open spec fn last_of(ks: Seq<NodeV>, r: Rule, n: nat) -> Option<int>
    decreases n,
{
    if n == 0 {
        None
    } else if ks[n - 1].rule == r {
        Some(n - 1)
    } else {
        last_of(ks, r, (n - 1) as nat)
    }
}

/// The texts of the nodes that a rule matched, among the first `n`.
pub open spec fn texts_with(ks: Seq<NodeV>, r: Rule, n: nat) -> Seq<Seq<char>>
    decreases n,
{
    if n == 0 {
        Seq::empty()
    } else {
        let out = texts_with(ks, r, (n - 1) as nat);
        if ks[n - 1].rule == r {
            out.push(ks[n - 1].text)
        } else {
            out
        }
    }
}

pub open spec fn kid_texts(ks: Seq<NodeV>) -> Seq<Seq<char>> {
    ks.map_values(|k: NodeV| k.text)
}

/// The text of the last name among nodes.
pub open spec fn name_in(ks: Seq<NodeV>) -> Seq<char> {
    match last_of(ks, Rule::Ident, ks.len()) {
        Some(i) => ks[i].text,
        None => Seq::empty(),
    }
}

/// The last type among nodes.
pub open spec fn type_among(ks: Seq<NodeV>) -> Option<TypeV> {
    match last_of(ks, Rule::TypeKeyword, ks.len()) {
        Some(i) => Some(type_of_node(ks[i])),
        None => None,
    }
}

fn is_rule(a: Rule, b: Rule) -> (r: bool)
    ensures
        r == (a == b),
{
    a == b
}

fn has_rule(ks: &Vec<Node>, r: Rule) -> (b: bool)
    ensures
        b == any_of(nodes_v(ks@), r, ks@.len()),
{
    let ghost kv = nodes_v(ks@);
    let mut n: usize = ks.len();
    while n > 0
        invariant
            n <= ks@.len(),
            kv == nodes_v(ks@),
            any_of(kv, r, ks@.len()) == any_of(kv, r, n as nat),
        decreases n,
    {
        assert(kv[n - 1] == ks@[n - 1]@);
        if is_rule(ks[n - 1].rule, r) {
            return true;
        }
        n -= 1;
    }
    false
}

fn find_last(ks: &Vec<Node>, r: Rule) -> (x: Option<usize>)
    ensures
        opt_pos(x) == last_of(nodes_v(ks@), r, ks@.len()),
        x matches Some(i) ==> i < ks@.len(),
{
    let ghost kv = nodes_v(ks@);
    let mut n: usize = ks.len();
    while n > 0
        invariant
            n <= ks@.len(),
            kv == nodes_v(ks@),
            last_of(kv, r, ks@.len()) == last_of(kv, r, n as nat),
        decreases n,
    {
        assert(kv[n - 1] == ks@[n - 1]@);
        if is_rule(ks[n - 1].rule, r) {
            return Some(n - 1);
        }
        n -= 1;
    }
    None
}

fn texts_of_rule(ks: &Vec<Node>, r: Rule) -> (x: Vec<String>)
    ensures
        texts(x@) == texts_with(nodes_v(ks@), r, ks@.len()),
{
    let ghost kv = nodes_v(ks@);
    let mut out: Vec<String> = Vec::new();
    let mut i: usize = 0;
    assert(texts(out@) =~= Seq::<Seq<char>>::empty());
    while i < ks.len()
        invariant
            i <= ks@.len(),
            kv == nodes_v(ks@),
            texts(out@) == texts_with(kv, r, i as nat),
        decreases ks@.len() - i,
    {
        assert(kv[i as int] == ks@[i as int]@);
        if is_rule(ks[i].rule, r) {
            let ghost before = texts(out@);
            out.push(ks[i].text.clone());
            assert(texts(out@) =~= before.push(kv[i as int].text));
        }
        i += 1;
    }
    out
}

fn all_texts(ks: &Vec<Node>) -> (x: Vec<String>)
    ensures
        texts(x@) == kid_texts(nodes_v(ks@)),
{
    let ghost kv = nodes_v(ks@);
    let mut out: Vec<String> = Vec::new();
    let mut i: usize = 0;
    while i < ks.len()
        invariant
            i <= ks@.len(),
            kv == nodes_v(ks@),
            out@.len() == i,
            forall|k: int| 0 <= k < i ==> (#[trigger] out@[k])@ == kv[k].text,
        decreases ks@.len() - i,
    {
        assert(kv[i as int] == ks@[i as int]@);
        out.push(ks[i].text.clone());
        i += 1;
    }
    assert(texts(out@) =~= kid_texts(kv));
    out
}

fn name_of_kids(ks: &Vec<Node>) -> (r: String)
    ensures
        r@ == name_in(nodes_v(ks@)),
{
    match find_last(ks, Rule::Ident) {
        Some(i) => {
            assert(nodes_v(ks@)[i as int] == ks@[i as int]@);
            ks[i].text.clone()
        },
        None => {
            let s = String::new();
            assert(s@ =~= Seq::<char>::empty());
            s
        },
    }
}

fn type_of_kids(ks: &Vec<Node>) -> (r: Option<Type>)
    ensures
        opt_type_v(r) == type_among(nodes_v(ks@)),
{
    match find_last(ks, Rule::TypeKeyword) {
        Some(i) => {
            assert(nodes_v(ks@)[i as int] == ks@[i as int]@);
            Some(parse_type(&ks[i]))
        },
        None => None,
    }
}

pub open spec fn or_unnamed(t: Option<TypeV>) -> TypeV {
    match t {
        Some(t) => t,
        None => unknown_type(),
    }
}

fn type_or_unnamed(t: Option<Type>) -> (r: Type)
    ensures
        r@ == or_unnamed(opt_type_v(t)),
{
    match t {
        Some(t) => t,
        None => unknown(),
    }
}

/// The expression of the `i`th node.
pub open spec fn kid_expr(ks: Seq<NodeV>, i: int) -> ExprV {
    if 0 <= i < ks.len() {
        expr_of(ks[i], string_depth())
    } else {
        unknown_term()
    }
}

/// The operand of the `i`th node.
pub open spec fn kid_term(ks: Seq<NodeV>, i: int) -> ExprV {
    if 0 <= i < ks.len() {
        term_of(ks[i], string_depth())
    } else {
        unknown_term()
    }
}

pub open spec fn kid_text(ks: Seq<NodeV>, i: int) -> Seq<char> {
    if 0 <= i < ks.len() {
        ks[i].text
    } else {
        Seq::empty()
    }
}

fn expr_of_kid(ks: &Vec<Node>, i: usize) -> (r: Expr)
    ensures
        r@ == kid_expr(nodes_v(ks@), i as int),
{
    if i < ks.len() {
        assert(nodes_v(ks@)[i as int] == ks@[i as int]@);
        parse_expr(&ks[i])
    } else {
        Expr::Identifier(String::from_str("unknown_term"))
    }
}

fn term_of_kid(ks: &Vec<Node>, i: usize) -> (r: Expr)
    ensures
        r@ == kid_term(nodes_v(ks@), i as int),
{
    if i < ks.len() {
        assert(nodes_v(ks@)[i as int] == ks@[i as int]@);
        parse_term(&ks[i], 2)
    } else {
        Expr::Identifier(String::from_str("unknown_term"))
    }
}

fn text_of_kid(ks: &Vec<Node>, i: usize) -> (r: String)
    ensures
        r@ == kid_text(nodes_v(ks@), i as int),
{
    if i < ks.len() {
        assert(nodes_v(ks@)[i as int] == ks@[i as int]@);
        ks[i].text.clone()
    } else {
        let s = String::new();
        assert(s@ =~= Seq::<char>::empty());
        s
    }
}

/// A text without its last character.
pub open spec fn but_last(t: Seq<char>) -> Seq<char> {
    if t.len() == 0 {
        t
    } else {
        t.drop_last()
    }
}

fn without_last(t: &str) -> (r: String)
    ensures
        r@ == but_last(t@),
{
    let v = chars_of(t);
    if v.len() == 0 {
        String::from_str(t)
    } else {
        let s = slice_text(&v, 0, v.len() - 1);
        assert(s@ =~= t@.drop_last());
        s
    }
}

pub open spec fn opt_kid_expr(ks: Seq<NodeV>, i: int) -> Option<ExprV> {
    if 0 <= i < ks.len() {
        Some(expr_of(ks[i], string_depth()))
    } else {
        None
    }
}

fn opt_expr_of_kid(ks: &Vec<Node>, i: usize) -> (r: Option<Expr>)
    ensures
        opt_expr_v(r) == opt_kid_expr(nodes_v(ks@), i as int),
{
    if i < ks.len() {
        assert(nodes_v(ks@)[i as int] == ks@[i as int]@);
        Some(parse_expr(&ks[i]))
    } else {
        None
    }
}

/// A declaration of a local: a type where one is written, else inferred. A local that is
/// given its value here never changes, unless it is `mut`.
pub open spec fn var_decl_of(ks: Seq<NodeV>) -> StmtV {
    let n = ks.len();
    let is_mut = any_of(ks, Rule::IsMut, n);
    let is_const = any_of(ks, Rule::IsConst, n);
    StmtV::VarDecl {
        is_mut,
        is_const: is_const || (!is_mut && any_of(ks, Rule::Expr, n)),
        type_def: match type_among(ks) {
            Some(t) => t,
            None => TypeV::Primitive("_infer"@),
        },
        name: name_in(ks),
        value: match last_of(ks, Rule::Expr, n) {
            Some(i) => Some(expr_of(ks[i], string_depth())),
            None => None,
        },
    }
}

fn parse_var_decl(ks: &Vec<Node>) -> (r: Statement)
    ensures
        r@ == var_decl_of(nodes_v(ks@)),
{
    let is_mut = has_rule(ks, Rule::IsMut);
    let is_const = has_rule(ks, Rule::IsConst) || (!is_mut && has_rule(ks, Rule::Expr));
    let type_def = match type_of_kids(ks) {
        Some(t) => t,
        None => Type::Primitive(String::from_str("_infer")),
    };
    let value = match find_last(ks, Rule::Expr) {
        Some(i) => {
            assert(nodes_v(ks@)[i as int] == ks@[i as int]@);
            Some(parse_expr(&ks[i]))
        },
        None => None,
    };
    Statement::VarDecl { is_mut, is_const, type_def, name: name_of_kids(ks), value }
}

/// A statement that holds no block; `None` where a rule is another's.
pub open spec fn plain_stmt(k: NodeV) -> Option<StmtV> {
    match k.rule {
        Rule::UnsafeBlock => Some(StmtV::UnsafeBlock(k.text)),
        Rule::AssertStmt => Some(
            StmtV::Assert { condition: kid_expr(k.kids, 0), message: opt_kid_expr(k.kids, 1) },
        ),
        Rule::ReturnStmt => Some(StmtV::Return { value: opt_kid_expr(k.kids, 0) }),
        Rule::RevertStmt => Some(StmtV::Revert { error: kid_expr(k.kids, 0) }),
        Rule::DeleteStmt => Some(StmtV::Delete { target: kid_term(k.kids, 0) }),
        Rule::BitwiseFlip => Some(
            StmtV::BitwiseFlip {
                name: kid_text(k.kids, 0),
                index: kid_expr(k.kids, 1),
                value: kid_expr(k.kids, 2),
            },
        ),
        Rule::VarDecl => Some(var_decl_of(k.kids)),
        Rule::CallStmt => Some(
            StmtV::Call {
                target: kid_text(k.kids, 0),
                args: exprs_of(k.kids, 1, string_depth()),
            },
        ),
        Rule::Assignment => Some(
            StmtV::Assignment { target: kid_term(k.kids, 0), value: kid_expr(k.kids, 1) },
        ),
        Rule::CompoundAssignment => Some(
            StmtV::Assignment {
                target: kid_term(k.kids, 0),
                value: ExprV::BinaryOp {
                    left: Box::new(kid_term(k.kids, 0)),
                    operator: but_last(kid_text(k.kids, 1)),
                    right: Box::new(kid_expr(k.kids, 2)),
                },
            },
        ),
        Rule::ExprStmt => Some(StmtV::Expression(kid_expr(k.kids, 0))),
        _ => None,
    }
}

pub open spec fn opt_stmt_v(s: Option<Statement>) -> Option<StmtV> {
    match s {
        Some(s) => Some(s@),
        None => None,
    }
}

fn parse_plain(k: &Node) -> (r: Option<Statement>)
    ensures
        opt_stmt_v(r) == plain_stmt(k@),
{
    let ks = &k.kids;
    let r = match k.rule {
        Rule::UnsafeBlock => Statement::UnsafeBlock(k.text.clone()),
        Rule::AssertStmt => Statement::Assert {
            condition: expr_of_kid(ks, 0),
            message: opt_expr_of_kid(ks, 1),
        },
        Rule::ReturnStmt => Statement::Return { value: opt_expr_of_kid(ks, 0) },
        Rule::RevertStmt => Statement::Revert { error: expr_of_kid(ks, 0) },
        Rule::DeleteStmt => Statement::Delete { target: term_of_kid(ks, 0) },
        Rule::BitwiseFlip => Statement::BitwiseFlip {
            name: text_of_kid(ks, 0),
            index: expr_of_kid(ks, 1),
            value: expr_of_kid(ks, 2),
        },
        Rule::VarDecl => parse_var_decl(ks),
        Rule::CallStmt => Statement::Call {
            target: text_of_kid(ks, 0),
            args: parse_exprs(ks, 1, 2),
        },
        Rule::Assignment => Statement::Assignment {
            target: term_of_kid(ks, 0),
            value: expr_of_kid(ks, 1),
        },
        Rule::CompoundAssignment => {
            let target = term_of_kid(ks, 0);
            let left = term_of_kid(ks, 0);
            let op = text_of_kid(ks, 1);
            let right = expr_of_kid(ks, 2);
            let value = Expr::BinaryOp {
                left: Box::new(left),
                operator: without_last(op.as_str()),
                right: Box::new(right),
            };
            proof {
                reveal_with_fuel(Expr::view, 2);
            }
            Statement::Assignment { target, value }
        },
        Rule::ExprStmt => Statement::Expression(expr_of_kid(ks, 0)),
        _ => {
            return None;
        },
    };
    Some(r)
}

/// The statement that a node holds; what no rule of a statement matched is an empty
/// block of foreign code.
pub open spec fn stmt_of(n: NodeV) -> SpannedV
    decreases n,
{
    SpannedV {
        node: if n.kids.len() == 0 {
            StmtV::UnsafeBlock(Seq::empty())
        } else {
            stmt_in(n.kids[0])
        },
        line: n.line,
        col: n.col,
    }
}

/// The statements of the `i`th node.
pub open spec fn block_at(ks: Seq<NodeV>, i: int) -> Seq<SpannedV>
    decreases ks, 0int,
{
    if 0 <= i < ks.len() {
        stmts_in(ks[i])
    } else {
        Seq::empty()
    }
}

pub open spec fn stmts_in(n: NodeV) -> Seq<SpannedV>
    decreases n,
{
    stmts_from(n.kids, 0)
}

pub open spec fn stmts_from(ks: Seq<NodeV>, i: nat) -> Seq<SpannedV>
    decreases ks, ks.len() - i,
{
    if i >= ks.len() {
        Seq::empty()
    } else {
        seq![stmt_of(ks[i as int])] + stmts_from(ks, i + 1)
    }
}

/// One case of a match.
pub open spec fn arm_of(n: NodeV) -> ArmV
    decreases n,
{
    let bound = n.kids.len() > 1 && n.kids[1].rule == Rule::Ident;
    ArmV {
        variant: kid_text(n.kids, 0),
        payload_var: if bound {
            Some(n.kids[1].text)
        } else {
            None
        },
        body: block_at(
            n.kids,
            if bound {
                2
            } else {
                1
            },
        ),
    }
}

pub open spec fn arms_from(ks: Seq<NodeV>, i: nat) -> Seq<ArmV>
    decreases ks, ks.len() - i,
{
    if i >= ks.len() {
        Seq::empty()
    } else {
        seq![arm_of(ks[i as int])] + arms_from(ks, i + 1)
    }
}

pub open spec fn stmt_in(k: NodeV) -> StmtV
    decreases k,
{
    match plain_stmt(k) {
        Some(s) => s,
        None => match k.rule {
            Rule::IfStmt => StmtV::IfElse {
                condition: kid_expr(k.kids, 0),
                if_body: block_at(k.kids, 1),
                else_body: if k.kids.len() > 2 {
                    Some(block_at(k.kids, 2))
                } else {
                    None
                },
            },
            Rule::ForStmt => StmtV::ForLoop {
                iterator: kid_text(k.kids, 0),
                iterable: kid_expr(k.kids, 1),
                body: block_at(k.kids, 2),
            },
            Rule::WhileStmt => StmtV::WhileLoop {
                condition: kid_expr(k.kids, 0),
                body: block_at(k.kids, 1),
            },
            Rule::TryStmt => StmtV::TryCatch {
                try_body: block_at(k.kids, 0),
                catch_body: block_at(k.kids, 1),
            },
            Rule::MatchStmt => StmtV::Match {
                expr: kid_expr(k.kids, 0),
                arms: arms_from(k.kids, 1),
            },
            _ => StmtV::UnsafeBlock(Seq::empty()),
        },
    }
}

fn nothing() -> (r: Statement)
    ensures
        r@ == StmtV::UnsafeBlock(Seq::empty()),
{
    let s = String::new();
    assert(s@ =~= Seq::<char>::empty());
    Statement::UnsafeBlock(s)
}

pub fn parse_statement(n: &Node) -> (r: Spanned<Statement>)
    ensures
        r@ == stmt_of(n@),
    decreases n, 0nat,
{
    proof {
        reveal_with_fuel(Statement::view, 2);
    }
    let node = if n.kids.len() == 0 {
        nothing()
    } else {
        let k: &Node = &n.kids[0];
        proof {
            assert(decreases_to!(*n => *k));
            assert(n@.kids[0] == k@);
        }
        parse_stmt_in(k)
    };
    Spanned { node, line: n.line, col: n.col }
}

fn parse_block_at(ks: &Vec<Node>, i: usize) -> (r: Vec<Spanned<Statement>>)
    ensures
        body_v(r@) == block_at(nodes_v(ks@), i as int),
    decreases ks, 0nat,
{
    if i < ks.len() {
        let k: &Node = &ks[i];
        proof {
            assert(decreases_to!(*ks => *k));
            assert(decreases_to!(*ks => k.kids));
            assert(nodes_v(ks@)[i as int] == k@);
        }
        parse_stmts(&k.kids)
    } else {
        let v: Vec<Spanned<Statement>> = Vec::new();
        assert(body_v(v@) =~= Seq::<SpannedV>::empty());
        v
    }
}

#[verifier::loop_isolation(false)]
pub fn parse_stmts(ks: &Vec<Node>) -> (r: Vec<Spanned<Statement>>)
    ensures
        body_v(r@) == stmts_from(nodes_v(ks@), 0),
    decreases ks, 0nat,
{
    let ghost kv = nodes_v(ks@);
    let mut out: Vec<Spanned<Statement>> = Vec::new();
    let mut i: usize = 0;
    assert(body_v(out@) + stmts_from(kv, 0) =~= stmts_from(kv, 0));
    while i < ks.len()
        invariant
            i <= ks@.len(),
            body_v(out@) + stmts_from(kv, i as nat) == stmts_from(kv, 0),
        decreases ks@.len() - i,
    {
        let k: &Node = &ks[i];
        proof {
            assert(decreases_to!(*ks => *k));
            assert(kv[i as int] == k@);
        }
        let s = parse_statement(k);
        let ghost before = body_v(out@);
        let ghost sv = s@;
        out.push(s);
        proof {
            assert(body_v(out@) =~= before.push(sv));
            let rest = stmts_from(kv, (i + 1) as nat);
            assert(before.push(sv) + rest =~= before + (seq![sv] + rest));
        }
        i += 1;
    }
    assert(body_v(out@) + stmts_from(kv, i as nat) =~= body_v(out@));
    out
}

fn parse_arm(n: &Node) -> (r: MatchArm)
    ensures
        r@ == arm_of(n@),
    decreases n, 0nat,
{
    let ks = &n.kids;
    proof {
        assert(decreases_to!(*n => *ks));
        assert(ks@.len() > 1 ==> nodes_v(ks@)[1] == ks@[1]@);
        reveal_with_fuel(MatchArm::view, 2);
    }
    let bound = ks.len() > 1 && is_rule(ks[1].rule, Rule::Ident);
    let payload_var: Option<String> = if bound {
        Some(ks[1].text.clone())
    } else {
        None
    };
    let at: usize = if bound {
        2
    } else {
        1
    };
    let body = parse_block_at(ks, at);
    MatchArm { variant: text_of_kid(ks, 0), payload_var, body }
}

#[verifier::loop_isolation(false)]
fn parse_arms(ks: &Vec<Node>, from: usize) -> (r: Vec<MatchArm>)
    ensures
        arms_v(r@) == arms_from(nodes_v(ks@), from as nat),
    decreases ks, 0nat,
{
    let ghost kv = nodes_v(ks@);
    let mut out: Vec<MatchArm> = Vec::new();
    let mut i: usize = from;
    assert(arms_v(out@) + arms_from(kv, i as nat) =~= arms_from(kv, from as nat));
    while i < ks.len()
        invariant
            from <= i,
            arms_v(out@) + arms_from(kv, i as nat) == arms_from(kv, from as nat),
        decreases ks@.len() - i,
    {
        let k: &Node = &ks[i];
        proof {
            assert(decreases_to!(*ks => *k));
            assert(kv[i as int] == k@);
        }
        let a = parse_arm(k);
        let ghost before = arms_v(out@);
        let ghost av = a@;
        out.push(a);
        proof {
            assert(arms_v(out@) =~= before.push(av));
            let rest = arms_from(kv, (i + 1) as nat);
            assert(before.push(av) + rest =~= before + (seq![av] + rest));
        }
        i += 1;
    }
    assert(arms_v(out@) + arms_from(kv, i as nat) =~= arms_v(out@));
    out
}

fn parse_stmt_in(k: &Node) -> (r: Statement)
    ensures
        r@ == stmt_in(k@),
    decreases k, 0nat,
{
    match parse_plain(k) {
        Some(s) => {
            return s;
        },
        None => {},
    }
    let ks = &k.kids;
    proof {
        assert(decreases_to!(*k => *ks));
        reveal_with_fuel(Statement::view, 2);
    }
    match k.rule {
        Rule::IfStmt => {
            let condition = expr_of_kid(ks, 0);
            let if_body = parse_block_at(ks, 1);
            let else_body = if ks.len() > 2 {
                Some(parse_block_at(ks, 2))
            } else {
                None
            };
            Statement::IfElse { condition, if_body, else_body }
        },
        Rule::ForStmt => {
            let body = parse_block_at(ks, 2);
            Statement::ForLoop {
                iterator: text_of_kid(ks, 0),
                iterable: expr_of_kid(ks, 1),
                body,
            }
        },
        Rule::WhileStmt => {
            let body = parse_block_at(ks, 1);
            Statement::WhileLoop { condition: expr_of_kid(ks, 0), body }
        },
        Rule::TryStmt => {
            let try_body = parse_block_at(ks, 0);
            let catch_body = parse_block_at(ks, 1);
            Statement::TryCatch { try_body, catch_body }
        },
        Rule::MatchStmt => {
            let arms = parse_arms(ks, 1);
            Statement::Match { expr: expr_of_kid(ks, 0), arms }
        },
        _ => nothing(),
    }
}

/// A parameter.
pub open spec fn param_of(n: NodeV) -> ParamV {
    ParamV {
        is_mut: any_of(n.kids, Rule::IsMut, n.kids.len()),
        type_def: or_unnamed(type_among(n.kids)),
        name: name_in(n.kids),
    }
}

/// The parameters among the first `n` nodes; `self` is none of them.
pub open spec fn params_of(ks: Seq<NodeV>, n: nat) -> Seq<ParamV>
    decreases n,
{
    if n == 0 {
        Seq::empty()
    } else {
        let out = params_of(ks, (n - 1) as nat);
        if ks[n - 1].rule == Rule::Param {
            out.push(param_of(ks[n - 1]))
        } else {
            out
        }
    }
}

fn parse_params(ks: &Vec<Node>) -> (r: Vec<Parameter>)
    ensures
        params_v(r@) == params_of(nodes_v(ks@), ks@.len()),
{
    let ghost kv = nodes_v(ks@);
    let mut out: Vec<Parameter> = Vec::new();
    let mut i: usize = 0;
    assert(params_v(out@) =~= Seq::<ParamV>::empty());
    while i < ks.len()
        invariant
            i <= ks@.len(),
            kv == nodes_v(ks@),
            params_v(out@) == params_of(kv, i as nat),
        decreases ks@.len() - i,
    {
        let k = &ks[i];
        assert(kv[i as int] == k@);
        if is_rule(k.rule, Rule::Param) {
            let p = Parameter {
                is_mut: has_rule(&k.kids, Rule::IsMut),
                type_def: type_or_unnamed(type_of_kids(&k.kids)),
                name: name_of_kids(&k.kids),
            };
            let ghost before = params_v(out@);
            let ghost pv = p@;
            out.push(p);
            assert(params_v(out@) =~= before.push(pv));
        }
        i += 1;
    }
    out
}

/// The parameter list among nodes.
pub open spec fn param_list(ks: Seq<NodeV>) -> Seq<NodeV> {
    match last_of(ks, Rule::ParamList, ks.len()) {
        Some(i) => ks[i].kids,
        None => Seq::empty(),
    }
}

/// A function: its attributes, modifiers and name, what it takes and gives back, and
/// what it does.
pub open spec fn fn_of(n: NodeV) -> FnV {
    let ks = n.kids;
    let ps = param_list(ks);
    FnV {
        modifiers: texts_with(ks, Rule::Modifier, ks.len()),
        attributes: match last_of(ks, Rule::FnAttrs, ks.len()) {
            Some(i) => kid_texts(ks[i].kids),
            None => Seq::empty(),
        },
        name: name_in(ks),
        has_self: any_of(ps, Rule::SelfParam, ps.len()),
        parameters: params_of(ps, ps.len()),
        return_type: type_among(ks),
        body: match last_of(ks, Rule::Block, ks.len()) {
            Some(i) => stmts_in(ks[i]),
            None => Seq::empty(),
        },
    }
}

pub fn parse_fn_decl(n: &Node) -> (r: FnDecl)
    ensures
        r@ == fn_of(n@),
{
    let ks = &n.kids;
    let ghost kv = nodes_v(ks@);
    let attributes: Vec<String> = match find_last(ks, Rule::FnAttrs) {
        Some(i) => {
            assert(kv[i as int] == ks@[i as int]@);
            all_texts(&ks[i].kids)
        },
        None => {
            let v: Vec<String> = Vec::new();
            assert(texts(v@) =~= Seq::<Seq<char>>::empty());
            v
        },
    };
    let (has_self, parameters): (bool, Vec<Parameter>) = match find_last(ks, Rule::ParamList) {
        Some(i) => {
            assert(kv[i as int] == ks@[i as int]@);
            (has_rule(&ks[i].kids, Rule::SelfParam), parse_params(&ks[i].kids))
        },
        None => {
            let v: Vec<Parameter> = Vec::new();
            assert(params_v(v@) =~= Seq::<ParamV>::empty());
            (false, v)
        },
    };
    let body: Vec<Spanned<Statement>> = match find_last(ks, Rule::Block) {
        Some(i) => {
            assert(kv[i as int] == ks@[i as int]@);
            parse_stmts(&ks[i].kids)
        },
        None => {
            let v: Vec<Spanned<Statement>> = Vec::new();
            assert(body_v(v@) =~= Seq::<SpannedV>::empty());
            v
        },
    };
    FnDecl {
        modifiers: texts_of_rule(ks, Rule::Modifier),
        attributes,
        name: name_of_kids(ks),
        has_self,
        parameters,
        return_type: type_of_kids(ks),
        body,
    }
}

/// A field.
pub open spec fn field_of(n: NodeV) -> FieldV {
    FieldV {
        is_const: any_of(n.kids, Rule::IsConst, n.kids.len()),
        is_transient: any_of(n.kids, Rule::IsTransient, n.kids.len()),
        type_def: or_unnamed(type_among(n.kids)),
        name: name_in(n.kids),
    }
}

pub open spec fn fields_of(ks: Seq<NodeV>, n: nat) -> Seq<FieldV>
    decreases n,
{
    if n == 0 {
        Seq::empty()
    } else {
        let out = fields_of(ks, (n - 1) as nat);
        if ks[n - 1].rule == Rule::ClassField {
            out.push(field_of(ks[n - 1]))
        } else {
            out
        }
    }
}

pub open spec fn methods_of(ks: Seq<NodeV>, n: nat) -> Seq<FnV>
    decreases n,
{
    if n == 0 {
        Seq::empty()
    } else {
        let out = methods_of(ks, (n - 1) as nat);
        if ks[n - 1].rule == Rule::FnDecl {
            out.push(fn_of(ks[n - 1]))
        } else {
            out
        }
    }
}

fn parse_fields(ks: &Vec<Node>) -> (r: Vec<ClassField>)
    ensures
        fields_v(r@) == fields_of(nodes_v(ks@), ks@.len()),
{
    let ghost kv = nodes_v(ks@);
    let mut out: Vec<ClassField> = Vec::new();
    let mut i: usize = 0;
    assert(fields_v(out@) =~= Seq::<FieldV>::empty());
    while i < ks.len()
        invariant
            i <= ks@.len(),
            kv == nodes_v(ks@),
            fields_v(out@) == fields_of(kv, i as nat),
        decreases ks@.len() - i,
    {
        let k = &ks[i];
        assert(kv[i as int] == k@);
        if is_rule(k.rule, Rule::ClassField) {
            let f = ClassField {
                is_const: has_rule(&k.kids, Rule::IsConst),
                is_transient: has_rule(&k.kids, Rule::IsTransient),
                type_def: type_or_unnamed(type_of_kids(&k.kids)),
                name: name_of_kids(&k.kids),
            };
            let ghost before = fields_v(out@);
            let ghost fv = f@;
            out.push(f);
            assert(fields_v(out@) =~= before.push(fv));
        }
        i += 1;
    }
    out
}

fn parse_methods(ks: &Vec<Node>) -> (r: Vec<FnDecl>)
    ensures
        methods_v(r@) == methods_of(nodes_v(ks@), ks@.len()),
{
    let ghost kv = nodes_v(ks@);
    let mut out: Vec<FnDecl> = Vec::new();
    let mut i: usize = 0;
    assert(methods_v(out@) =~= Seq::<FnV>::empty());
    while i < ks.len()
        invariant
            i <= ks@.len(),
            kv == nodes_v(ks@),
            methods_v(out@) == methods_of(kv, i as nat),
        decreases ks@.len() - i,
    {
        assert(kv[i as int] == ks@[i as int]@);
        if is_rule(ks[i].rule, Rule::FnDecl) {
            let f = parse_fn_decl(&ks[i]);
            let ghost before = methods_v(out@);
            let ghost fv = f@;
            out.push(f);
            assert(methods_v(out@) =~= before.push(fv));
        }
        i += 1;
    }
    out
}

/// A type parameter: its bound and its name.
pub open spec fn generic_of(n: NodeV) -> GenericV {
    GenericV { bound: kid_text(n.kids, 0), name: kid_text(n.kids, 1) }
}

fn parse_generics(ks: &Vec<Node>) -> (r: Vec<GenericParam>)
    ensures
        generics_v(r@) == nodes_v(ks@).map_values(|k: NodeV| generic_of(k)),
{
    let ghost kv = nodes_v(ks@);
    let mut out: Vec<GenericParam> = Vec::new();
    let mut i: usize = 0;
    while i < ks.len()
        invariant
            i <= ks@.len(),
            kv == nodes_v(ks@),
            out@.len() == i,
            forall|k: int| 0 <= k < i ==> (#[trigger] out@[k])@ == generic_of(kv[k]),
        decreases ks@.len() - i,
    {
        assert(kv[i as int] == ks@[i as int]@);
        out.push(
            GenericParam {
                bound: text_of_kid(&ks[i].kids, 0),
                name: text_of_kid(&ks[i].kids, 1),
            },
        );
        i += 1;
    }
    assert(generics_v(out@) =~= kv.map_values(|k: NodeV| generic_of(k)));
    out
}

/// The parents named by the first `n` nodes.
pub open spec fn parents_of(ks: Seq<NodeV>, n: nat) -> Seq<Seq<char>>
    decreases n,
{
    if n == 0 {
        Seq::empty()
    } else {
        let out = parents_of(ks, (n - 1) as nat);
        if ks[n - 1].rule == Rule::Parents {
            out + kid_texts(ks[n - 1].kids)
        } else {
            out
        }
    }
}

fn parse_parents(ks: &Vec<Node>) -> (r: Vec<String>)
    ensures
        texts(r@) == parents_of(nodes_v(ks@), ks@.len()),
{
    let ghost kv = nodes_v(ks@);
    let mut out: Vec<String> = Vec::new();
    let mut i: usize = 0;
    assert(texts(out@) =~= Seq::<Seq<char>>::empty());
    while i < ks.len()
        invariant
            i <= ks@.len(),
            kv == nodes_v(ks@),
            texts(out@) == parents_of(kv, i as nat),
        decreases ks@.len() - i,
    {
        assert(kv[i as int] == ks@[i as int]@);
        if is_rule(ks[i].rule, Rule::Parents) {
            let mut more = all_texts(&ks[i].kids);
            let ghost before = texts(out@);
            let ghost mv = texts(more@);
            out.append(&mut more);
            assert(texts(out@) =~= before + mv);
        }
        i += 1;
    }
    out
}

/// What stands between the braces of a class.
pub open spec fn class_body(ks: Seq<NodeV>) -> Seq<NodeV> {
    match last_of(ks, Rule::ClassBody, ks.len()) {
        Some(i) => ks[i].kids,
        None => Seq::empty(),
    }
}

pub open spec fn class_of(n: NodeV) -> ClassV {
    let ks = n.kids;
    let body = class_body(ks);
    ClassV {
        is_global: any_of(ks, Rule::IsGlobal, ks.len()),
        is_extern: any_of(ks, Rule::IsExtern, ks.len()),
        name: name_in(ks),
        generic_params: match last_of(ks, Rule::GenericParams, ks.len()) {
            Some(i) => ks[i].kids.map_values(|k: NodeV| generic_of(k)),
            None => Seq::empty(),
        },
        parents: parents_of(ks, ks.len()),
        fields: fields_of(body, body.len()),
        methods: methods_of(body, body.len()),
    }
}

fn parse_class(n: &Node) -> (r: ClassDecl)
    ensures
        r@ == class_of(n@),
{
    let ks = &n.kids;
    let ghost kv = nodes_v(ks@);
    let generic_params: Vec<GenericParam> = match find_last(ks, Rule::GenericParams) {
        Some(i) => {
            assert(kv[i as int] == ks@[i as int]@);
            parse_generics(&ks[i].kids)
        },
        None => {
            let v: Vec<GenericParam> = Vec::new();
            assert(generics_v(v@) =~= Seq::<GenericV>::empty());
            v
        },
    };
    let (fields, methods): (Vec<ClassField>, Vec<FnDecl>) = match find_last(ks, Rule::ClassBody) {
        Some(i) => {
            assert(kv[i as int] == ks@[i as int]@);
            (parse_fields(&ks[i].kids), parse_methods(&ks[i].kids))
        },
        None => {
            let a: Vec<ClassField> = Vec::new();
            let b: Vec<FnDecl> = Vec::new();
            assert(fields_v(a@) =~= Seq::<FieldV>::empty());
            assert(methods_v(b@) =~= Seq::<FnV>::empty());
            (a, b)
        },
    };
    ClassDecl {
        is_global: has_rule(ks, Rule::IsGlobal),
        is_extern: has_rule(ks, Rule::IsExtern),
        name: name_of_kids(ks),
        generic_params,
        parents: parse_parents(ks),
        fields,
        methods,
    }
}

/// A variant, or a custom error: its name and what it carries.
pub open spec fn variant_of(n: NodeV) -> VariantV {
    let ps = param_list(n.kids);
    VariantV { name: kid_text(n.kids, 0), parameters: params_of(ps, ps.len()) }
}

fn parse_carried(ks: &Vec<Node>) -> (r: Vec<Parameter>)
    ensures
        params_v(r@) == params_of(param_list(nodes_v(ks@)), param_list(nodes_v(ks@)).len()),
{
    match find_last(ks, Rule::ParamList) {
        Some(i) => {
            assert(nodes_v(ks@)[i as int] == ks@[i as int]@);
            parse_params(&ks[i].kids)
        },
        None => {
            let v: Vec<Parameter> = Vec::new();
            assert(params_v(v@) =~= Seq::<ParamV>::empty());
            v
        },
    }
}

/// The variants among the first `n` nodes.
pub open spec fn variants_of(ks: Seq<NodeV>, n: nat) -> Seq<VariantV>
    decreases n,
{
    if n == 0 {
        Seq::empty()
    } else {
        let out = variants_of(ks, (n - 1) as nat);
        if ks[n - 1].rule == Rule::Variant {
            out.push(variant_of(ks[n - 1]))
        } else {
            out
        }
    }
}

fn parse_variants(ks: &Vec<Node>) -> (r: Vec<EnumVariant>)
    ensures
        variants_v(r@) == variants_of(nodes_v(ks@), ks@.len()),
{
    let ghost kv = nodes_v(ks@);
    let mut out: Vec<EnumVariant> = Vec::new();
    let mut i: usize = 0;
    assert(variants_v(out@) =~= Seq::<VariantV>::empty());
    while i < ks.len()
        invariant
            i <= ks@.len(),
            kv == nodes_v(ks@),
            variants_v(out@) == variants_of(kv, i as nat),
        decreases ks@.len() - i,
    {
        let k = &ks[i];
        assert(kv[i as int] == k@);
        if is_rule(k.rule, Rule::Variant) {
            let v = EnumVariant {
                name: text_of_kid(&k.kids, 0),
                parameters: parse_carried(&k.kids),
            };
            let ghost before = variants_v(out@);
            let ghost vv = v@;
            out.push(v);
            assert(variants_v(out@) =~= before.push(vv));
        }
        i += 1;
    }
    out
}

/// The declaration that a node holds.
pub open spec fn decl_of(k: NodeV) -> Option<DeclV> {
    match k.rule {
        Rule::UseDecl => Some(DeclV::Use(kid_text(k.kids, 0))),
        Rule::ClassDecl => Some(DeclV::Class(class_of(k))),
        Rule::EnumDecl => Some(
            DeclV::Enum(
                EnumV {
                    name: kid_text(k.kids, 0),
                    variants: variants_of(k.kids, k.kids.len()),
                },
            ),
        ),
        Rule::ErrorDecl => Some(DeclV::Error(variant_of(k))),
        Rule::FnDecl => Some(DeclV::Function(fn_of(k))),
        _ => None,
    }
}

pub open spec fn opt_decl_v(d: Option<Declaration>) -> Option<DeclV> {
    match d {
        Some(d) => Some(d@),
        None => None,
    }
}

pub fn build_declaration(k: &Node) -> (r: Option<Declaration>)
    ensures
        opt_decl_v(r) == decl_of(k@),
{
    match k.rule {
        Rule::UseDecl => Some(Declaration::Use(UseDecl { path: text_of_kid(&k.kids, 0) })),
        Rule::ClassDecl => Some(Declaration::Class(parse_class(k))),
        Rule::EnumDecl => Some(
            Declaration::Enum(
                EnumDecl { name: text_of_kid(&k.kids, 0), variants: parse_variants(&k.kids) },
            ),
        ),
        Rule::ErrorDecl => Some(
            Declaration::Error(
                ErrorDecl { name: text_of_kid(&k.kids, 0), parameters: parse_carried(&k.kids) },
            ),
        ),
        Rule::FnDecl => Some(Declaration::Function(parse_fn_decl(k))),
        _ => None,
    }
}

} // verus!
