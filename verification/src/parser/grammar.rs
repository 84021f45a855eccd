//! The grammar of the language, with braces and semicolons, and how a text is matched
//! against it: alternatives are tried in order, repetition takes all it can, and
//! between the parts of a rule white space and comments are passed over.
use crate::parser::node::{nodes_v, Node, NodeV, Rule};
use crate::text::{chars_of, lemma_next_char, next_char, slice_text};
use vstd::prelude::*;

verus! {

broadcast use crate::parser::node::group_nodes;

/// A set of characters.
#[derive(Clone, Copy, PartialEq, Eq, Structural)]
pub enum Class {
    Digit,
    Hex,
    /// What a name starts with.
    Start,
    /// What a name goes on with.
    Word,
    /// What stands in a string.
    Unquoted,
}

/// What a rule stands for.
pub enum Peg {
    Lit(&'static str),
    /// A word that ends there.
    Key(&'static str),
    One(Class),
    /// As many characters as there are.
    Run(Class),
    /// From a brace to the one that closes it.
    Balanced,
    /// The end of the text.
    End,
    /// One after the other, with white space and comments between.
    Cat(Box<Peg>, Box<Peg>),
    /// One after the other, with nothing between.
    Join(Box<Peg>, Box<Peg>),
    Or(Box<Peg>, Box<Peg>),
    Many(Box<Peg>),
    Opt(Box<Peg>),
    Not(Box<Peg>),
    Call(Rule),
}

// The parts of the table below.

#[verifier::allow_in_spec]
pub fn all2(a: Peg, b: Peg) -> Peg
    returns
        Peg::Cat(Box::new(a), Box::new(b)),
{
    Peg::Cat(Box::new(a), Box::new(b))
}

#[verifier::allow_in_spec]
pub fn all3(a: Peg, b: Peg, c: Peg) -> Peg
    returns
        Peg::Cat(Box::new(a), Box::new(all2(b, c))),
{
    Peg::Cat(Box::new(a), Box::new(all2(b, c)))
}

#[verifier::allow_in_spec]
pub fn all4(a: Peg, b: Peg, c: Peg, d: Peg) -> Peg
    returns
        Peg::Cat(Box::new(a), Box::new(all3(b, c, d))),
{
    Peg::Cat(Box::new(a), Box::new(all3(b, c, d)))
}

#[verifier::allow_in_spec]
pub fn all5(a: Peg, b: Peg, c: Peg, d: Peg, e: Peg) -> Peg
    returns
        Peg::Cat(Box::new(a), Box::new(all4(b, c, d, e))),
{
    Peg::Cat(Box::new(a), Box::new(all4(b, c, d, e)))
}

#[verifier::allow_in_spec]
pub fn all6(a: Peg, b: Peg, c: Peg, d: Peg, e: Peg, f: Peg) -> Peg
    returns
        Peg::Cat(Box::new(a), Box::new(all5(b, c, d, e, f))),
{
    Peg::Cat(Box::new(a), Box::new(all5(b, c, d, e, f)))
}

#[verifier::allow_in_spec]
pub fn all7(a: Peg, b: Peg, c: Peg, d: Peg, e: Peg, f: Peg, g: Peg) -> Peg
    returns
        Peg::Cat(Box::new(a), Box::new(all6(b, c, d, e, f, g))),
{
    Peg::Cat(Box::new(a), Box::new(all6(b, c, d, e, f, g)))
}

#[verifier::allow_in_spec]
pub fn all8(a: Peg, b: Peg, c: Peg, d: Peg, e: Peg, f: Peg, g: Peg, h: Peg) -> Peg
    returns
        Peg::Cat(Box::new(a), Box::new(all7(b, c, d, e, f, g, h))),
{
    Peg::Cat(Box::new(a), Box::new(all7(b, c, d, e, f, g, h)))
}

#[verifier::allow_in_spec]
pub fn all9(a: Peg, b: Peg, c: Peg, d: Peg, e: Peg, f: Peg, g: Peg, h: Peg, i: Peg) -> Peg
    returns
        Peg::Cat(Box::new(a), Box::new(all8(b, c, d, e, f, g, h, i))),
{
    Peg::Cat(Box::new(a), Box::new(all8(b, c, d, e, f, g, h, i)))
}

#[verifier::allow_in_spec]
pub fn any2(a: Peg, b: Peg) -> Peg
    returns
        Peg::Or(Box::new(a), Box::new(b)),
{
    Peg::Or(Box::new(a), Box::new(b))
}

#[verifier::allow_in_spec]
pub fn any3(a: Peg, b: Peg, c: Peg) -> Peg
    returns
        Peg::Or(Box::new(a), Box::new(any2(b, c))),
{
    Peg::Or(Box::new(a), Box::new(any2(b, c)))
}

#[verifier::allow_in_spec]
pub fn any4(a: Peg, b: Peg, c: Peg, d: Peg) -> Peg
    returns
        Peg::Or(Box::new(a), Box::new(any3(b, c, d))),
{
    Peg::Or(Box::new(a), Box::new(any3(b, c, d)))
}

#[verifier::allow_in_spec]
pub fn any5(a: Peg, b: Peg, c: Peg, d: Peg, e: Peg) -> Peg
    returns
        Peg::Or(Box::new(a), Box::new(any4(b, c, d, e))),
{
    Peg::Or(Box::new(a), Box::new(any4(b, c, d, e)))
}

#[verifier::allow_in_spec]
pub fn any6(a: Peg, b: Peg, c: Peg, d: Peg, e: Peg, f: Peg) -> Peg
    returns
        Peg::Or(Box::new(a), Box::new(any5(b, c, d, e, f))),
{
    Peg::Or(Box::new(a), Box::new(any5(b, c, d, e, f)))
}

#[verifier::allow_in_spec]
pub fn any7(a: Peg, b: Peg, c: Peg, d: Peg, e: Peg, f: Peg, g: Peg) -> Peg
    returns
        Peg::Or(Box::new(a), Box::new(any6(b, c, d, e, f, g))),
{
    Peg::Or(Box::new(a), Box::new(any6(b, c, d, e, f, g)))
}

#[verifier::allow_in_spec]
pub fn any8(a: Peg, b: Peg, c: Peg, d: Peg, e: Peg, f: Peg, g: Peg, h: Peg) -> Peg
    returns
        Peg::Or(Box::new(a), Box::new(any7(b, c, d, e, f, g, h))),
{
    Peg::Or(Box::new(a), Box::new(any7(b, c, d, e, f, g, h)))
}

#[verifier::allow_in_spec]
pub fn any9(a: Peg, b: Peg, c: Peg, d: Peg, e: Peg, f: Peg, g: Peg, h: Peg, i: Peg) -> Peg
    returns
        Peg::Or(Box::new(a), Box::new(any8(b, c, d, e, f, g, h, i))),
{
    Peg::Or(Box::new(a), Box::new(any8(b, c, d, e, f, g, h, i)))
}

#[verifier::allow_in_spec]
pub fn join(a: Peg, b: Peg) -> Peg
    returns
        Peg::Join(Box::new(a), Box::new(b)),
{
    Peg::Join(Box::new(a), Box::new(b))
}

#[verifier::allow_in_spec]
pub fn many(a: Peg) -> Peg
    returns
        Peg::Many(Box::new(a)),
{
    Peg::Many(Box::new(a))
}

#[verifier::allow_in_spec]
pub fn opt(a: Peg) -> Peg
    returns
        Peg::Opt(Box::new(a)),
{
    Peg::Opt(Box::new(a))
}

#[verifier::allow_in_spec]
pub fn no(a: Peg) -> Peg
    returns
        Peg::Not(Box::new(a)),
{
    Peg::Not(Box::new(a))
}

/// The grammar: what each rule stands for.
pub open spec fn rule_spec(r: Rule) -> Peg {
    match r {
        Rule::DeclUnit => all2(Peg::Call(Rule::Declaration), Peg::End),
        Rule::MemberUnit => all2(any2(Peg::Call(Rule::FnDecl), Peg::Call(Rule::ClassField)), Peg::End),
        Rule::StatementUnit => all2(Peg::Call(Rule::Statement), Peg::End),
        Rule::Declaration => any5(
            Peg::Call(Rule::UseDecl),
            Peg::Call(Rule::ClassDecl),
            Peg::Call(Rule::EnumDecl),
            Peg::Call(Rule::ErrorDecl),
            Peg::Call(Rule::FnDecl),
        ),
        Rule::UseDecl => all3(Peg::Key("use"), Peg::Call(Rule::Path), Peg::Lit(";")),
        Rule::Path => all2(
            join(Peg::One(Class::Start), Peg::Run(Class::Word)),
            many(join(Peg::Lit("."), join(Peg::One(Class::Start), Peg::Run(Class::Word)))),
        ),
        Rule::ClassDecl => all6(
            opt(Peg::Call(Rule::Parents)),
            any3(Peg::Call(Rule::IsGlobal), Peg::Call(Rule::IsExtern), Peg::Key("class")),
            Peg::Call(Rule::Ident),
            opt(Peg::Call(Rule::GenericParams)),
            opt(Peg::Call(Rule::Parents)),
            any2(Peg::Call(Rule::ClassBody), Peg::Lit(";")),
        ),
        Rule::IsGlobal => Peg::Key("contract"),
        Rule::IsExtern => any2(Peg::Key("interface"), all2(Peg::Key("extern"), Peg::Key("class"))),
        Rule::GenericParams => all3(
            Peg::Lit("("),
            all2(
                Peg::Call(Rule::GenericParam),
                many(all2(Peg::Lit(","), Peg::Call(Rule::GenericParam))),
            ),
            Peg::Lit(")"),
        ),
        Rule::GenericParam => all2(Peg::Call(Rule::Ident), Peg::Call(Rule::Ident)),
        Rule::Parents => all3(
            Peg::Lit("["),
            all2(Peg::Call(Rule::Ident), many(all2(Peg::Lit(","), Peg::Call(Rule::Ident)))),
            Peg::Lit("]"),
        ),
        Rule::ClassBody => all3(
            Peg::Lit("{"),
            many(any2(Peg::Call(Rule::FnDecl), Peg::Call(Rule::ClassField))),
            Peg::Lit("}"),
        ),
        Rule::ClassField => all4(
            many(any2(Peg::Call(Rule::IsConst), Peg::Call(Rule::IsTransient))),
            Peg::Call(Rule::TypeKeyword),
            Peg::Call(Rule::Ident),
            Peg::Lit(";"),
        ),
        Rule::IsConst => Peg::Key("const"),
        Rule::IsTransient => Peg::Key("transient"),
        Rule::IsMut => Peg::Key("mut"),
        Rule::EnumDecl => all5(
            Peg::Key("enum"),
            Peg::Call(Rule::Ident),
            Peg::Lit("{"),
            many(all2(Peg::Call(Rule::Variant), opt(any2(Peg::Lit(";"), Peg::Lit(","))))),
            Peg::Lit("}"),
        ),
        Rule::Variant => all2(
            Peg::Call(Rule::Ident),
            opt(all3(Peg::Lit("("), Peg::Call(Rule::ParamList), Peg::Lit(")"))),
        ),
        Rule::ErrorDecl => all4(
            Peg::Key("error"),
            Peg::Call(Rule::Ident),
            opt(all3(Peg::Lit("("), opt(Peg::Call(Rule::ParamList)), Peg::Lit(")"))),
            Peg::Lit(";"),
        ),
        Rule::FnDecl => all9(
            opt(Peg::Call(Rule::FnAttrs)),
            many(Peg::Call(Rule::Modifier)),
            Peg::Key("fn"),
            Peg::Call(Rule::Ident),
            Peg::Lit("("),
            opt(Peg::Call(Rule::ParamList)),
            Peg::Lit(")"),
            opt(all2(Peg::Lit("->"), Peg::Call(Rule::TypeKeyword))),
            any2(Peg::Call(Rule::Block), Peg::Lit(";")),
        ),
        Rule::FnAttrs => all3(
            Peg::Lit("["),
            all2(Peg::Call(Rule::Ident), many(all2(Peg::Lit(","), Peg::Call(Rule::Ident)))),
            Peg::Lit("]"),
        ),
        Rule::Modifier => any4(Peg::Key("export"), Peg::Key("payable"), Peg::Key("once"), Peg::Key("unsafe")),
        Rule::ParamList => all2(
            any2(Peg::Call(Rule::SelfParam), Peg::Call(Rule::Param)),
            many(all2(Peg::Lit(","), any2(Peg::Call(Rule::SelfParam), Peg::Call(Rule::Param)))),
        ),
        Rule::SelfParam => Peg::Key("self"),
        Rule::Param => all3(opt(Peg::Call(Rule::IsMut)), Peg::Call(Rule::TypeKeyword), Peg::Call(Rule::Ident)),
        Rule::Ident => join(Peg::One(Class::Start), Peg::Run(Class::Word)),
        Rule::TypeKeyword => any3(
            Peg::Call(Rule::ArrayType),
            Peg::Call(Rule::GenericType),
            Peg::Call(Rule::TypeIdent),
        ),
        Rule::TypeIdent => join(Peg::One(Class::Start), Peg::Run(Class::Word)),
        Rule::GenericType => all4(
            Peg::Call(Rule::Ident),
            Peg::Lit("("),
            all2(
                Peg::Call(Rule::TypeKeyword),
                many(all2(Peg::Lit(","), Peg::Call(Rule::TypeKeyword))),
            ),
            Peg::Lit(")"),
        ),
        Rule::ArrayType => all4(
            Peg::Lit("["),
            Peg::Call(Rule::TypeKeyword),
            opt(all2(Peg::Lit(";"), Peg::Call(Rule::Number))),
            Peg::Lit("]"),
        ),
        Rule::Number => any2(
            join(Peg::Lit("0x"), join(Peg::One(Class::Hex), Peg::Run(Class::Hex))),
            join(
                Peg::One(Class::Digit),
                join(
                    Peg::Run(Class::Digit),
                    opt(
                        join(
                            Peg::Lit("."),
                            join(Peg::One(Class::Digit), Peg::Run(Class::Digit)),
                        ),
                    ),
                ),
            ),
        ),
        Rule::Block => all3(Peg::Lit("{"), many(Peg::Call(Rule::Statement)), Peg::Lit("}")),
        Rule::Statement => any9(
            Peg::Call(Rule::UnsafeBlock),
            Peg::Call(Rule::AssertStmt),
            Peg::Call(Rule::ReturnStmt),
            Peg::Call(Rule::RevertStmt),
            Peg::Call(Rule::DeleteStmt),
            Peg::Call(Rule::IfStmt),
            Peg::Call(Rule::ForStmt),
            Peg::Call(Rule::WhileStmt),
            any8(
                Peg::Call(Rule::TryStmt),
                Peg::Call(Rule::MatchStmt),
                Peg::Call(Rule::BitwiseFlip),
                Peg::Call(Rule::CallStmt),
                Peg::Call(Rule::VarDecl),
                Peg::Call(Rule::Assignment),
                Peg::Call(Rule::CompoundAssignment),
                Peg::Call(Rule::ExprStmt),
            ),
        ),
        Rule::UnsafeBlock => all2(Peg::Key("unsafe"), Peg::Balanced),
        Rule::AssertStmt => all6(
            Peg::Key("assert"),
            Peg::Lit("("),
            Peg::Call(Rule::Expr),
            opt(all2(Peg::Lit(","), Peg::Call(Rule::Expr))),
            Peg::Lit(")"),
            Peg::Lit(";"),
        ),
        Rule::ReturnStmt => all3(Peg::Key("return"), opt(Peg::Call(Rule::Expr)), Peg::Lit(";")),
        Rule::RevertStmt => all3(Peg::Key("revert"), Peg::Call(Rule::Expr), Peg::Lit(";")),
        Rule::DeleteStmt => all3(Peg::Key("delete"), Peg::Call(Rule::Term), Peg::Lit(";")),
        Rule::IfStmt => all4(
            Peg::Key("if"),
            Peg::Call(Rule::Expr),
            Peg::Call(Rule::Block),
            opt(all2(Peg::Key("else"), any2(Peg::Call(Rule::Block), Peg::Call(Rule::ElseIf)))),
        ),
        Rule::ElseIf => Peg::Call(Rule::NestedIf),
        Rule::NestedIf => Peg::Call(Rule::IfStmt),
        Rule::ForStmt => all5(
            Peg::Key("for"),
            Peg::Call(Rule::Ident),
            Peg::Key("in"),
            Peg::Call(Rule::Expr),
            Peg::Call(Rule::Block),
        ),
        Rule::WhileStmt => all3(Peg::Key("while"), Peg::Call(Rule::Expr), Peg::Call(Rule::Block)),
        Rule::TryStmt => all4(Peg::Key("try"), Peg::Call(Rule::Block), Peg::Key("catch"), Peg::Call(Rule::Block)),
        Rule::MatchStmt => all5(
            Peg::Key("match"),
            Peg::Call(Rule::Expr),
            Peg::Lit("{"),
            many(Peg::Call(Rule::MatchArm)),
            Peg::Lit("}"),
        ),
        Rule::MatchArm => all3(
            Peg::Call(Rule::Ident),
            opt(all3(Peg::Lit("("), Peg::Call(Rule::Ident), Peg::Lit(")"))),
            Peg::Call(Rule::Block),
        ),
        Rule::BitwiseFlip => all8(
            Peg::Key("flip"),
            Peg::Call(Rule::Ident),
            Peg::Lit("["),
            Peg::Call(Rule::Expr),
            Peg::Lit("]"),
            Peg::Lit("="),
            Peg::Call(Rule::Expr),
            Peg::Lit(";"),
        ),
        Rule::CallStmt => all6(
            Peg::Key("call"),
            Peg::Call(Rule::Ident),
            Peg::Lit("("),
            opt(all2(Peg::Call(Rule::Expr), many(all2(Peg::Lit(","), Peg::Call(Rule::Expr))))),
            Peg::Lit(")"),
            Peg::Lit(";"),
        ),
        Rule::VarDecl => any3(
            all6(
                many(any2(Peg::Call(Rule::IsMut), Peg::Call(Rule::IsConst))),
                Peg::Call(Rule::VarKw),
                Peg::Call(Rule::Ident),
                Peg::Lit("="),
                Peg::Call(Rule::Expr),
                Peg::Lit(";"),
            ),
            all5(
                many(any2(Peg::Call(Rule::IsMut), Peg::Call(Rule::IsConst))),
                Peg::Call(Rule::TypeKeyword),
                Peg::Call(Rule::Ident),
                opt(all2(Peg::Lit("="), Peg::Call(Rule::Expr))),
                Peg::Lit(";"),
            ),
            all6(
                any2(Peg::Call(Rule::IsMut), Peg::Call(Rule::IsConst)),
                many(any2(Peg::Call(Rule::IsMut), Peg::Call(Rule::IsConst))),
                Peg::Call(Rule::Ident),
                Peg::Lit("="),
                Peg::Call(Rule::Expr),
                Peg::Lit(";"),
            ),
        ),
        Rule::VarKw => Peg::Key("var"),
        Rule::Assignment => all4(Peg::Call(Rule::Term), Peg::Lit("="), Peg::Call(Rule::Expr), Peg::Lit(";")),
        Rule::CompoundAssignment => all4(
            Peg::Call(Rule::Term),
            Peg::Call(Rule::CompoundOp),
            Peg::Call(Rule::Expr),
            Peg::Lit(";"),
        ),
        Rule::CompoundOp => any9(
            Peg::Lit("**="),
            Peg::Lit("+="),
            Peg::Lit("-="),
            Peg::Lit("*="),
            Peg::Lit("/="),
            Peg::Lit("%="),
            Peg::Lit("<<="),
            Peg::Lit(">>="),
            any3(Peg::Lit("&="), Peg::Lit("|="), Peg::Lit("^=")),
        ),
        Rule::ExprStmt => all2(Peg::Call(Rule::Expr), Peg::Lit(";")),
        Rule::Expr => all2(Peg::Call(Rule::Term), many(all2(Peg::Call(Rule::BinOp), Peg::Call(Rule::Term)))),
        Rule::BinOp => any9(
            Peg::Lit("||"),
            Peg::Lit("&&"),
            Peg::Lit("=="),
            Peg::Lit("!="),
            Peg::Lit("<="),
            Peg::Lit(">="),
            Peg::Lit("<<"),
            Peg::Lit(">>"),
            any9(
                Peg::Lit("**"),
                Peg::Lit("<"),
                Peg::Lit(">"),
                Peg::Lit("+"),
                Peg::Lit("-"),
                Peg::Lit("*"),
                Peg::Lit("/"),
                Peg::Lit("%"),
                any3(Peg::Lit("|"), Peg::Lit("^"), Peg::Lit("&")),
            ),
        ),
        Rule::Term => all3(
            opt(Peg::Call(Rule::UnaryOp)),
            Peg::Call(Rule::Atom),
            many(Peg::Call(Rule::Suffix)),
        ),
        Rule::UnaryOp => any2(Peg::Lit("-"), Peg::Lit("!")),
        Rule::Atom => any8(
            Peg::Call(Rule::Number),
            Peg::Call(Rule::FStringLiteral),
            Peg::Call(Rule::StringLiteral),
            Peg::Call(Rule::ArrayLiteral),
            Peg::Call(Rule::ParenExpr),
            Peg::Call(Rule::Instantiation),
            Peg::Call(Rule::FnCall),
            Peg::Call(Rule::Ident),
        ),
        Rule::StringLiteral => join(Peg::Lit("\""), join(Peg::Run(Class::Unquoted), Peg::Lit("\""))),
        Rule::FStringLiteral => join(Peg::Lit("f\""), join(Peg::Run(Class::Unquoted), Peg::Lit("\""))),
        Rule::ParenExpr => all3(Peg::Lit("("), Peg::Call(Rule::Expr), Peg::Lit(")")),
        Rule::ArrayLiteral => all3(
            Peg::Lit("["),
            opt(all2(Peg::Call(Rule::Expr), many(all2(Peg::Lit(","), Peg::Call(Rule::Expr))))),
            Peg::Lit("]"),
        ),
        Rule::Instantiation => all6(
            Peg::Call(Rule::MadeType),
            Peg::Lit("."),
            Peg::Key("new"),
            Peg::Lit("("),
            opt(all2(Peg::Call(Rule::Expr), many(all2(Peg::Lit(","), Peg::Call(Rule::Expr))))),
            Peg::Lit(")"),
        ),
        Rule::MadeType => any2(
            Peg::Call(Rule::GenericType),
            all2(no(any2(Peg::Key("self"), Peg::Key("super"))), Peg::Call(Rule::TypeIdent)),
        ),
        Rule::FnCall => all4(
            Peg::Call(Rule::Ident),
            Peg::Lit("("),
            opt(all2(Peg::Call(Rule::Expr), many(all2(Peg::Lit(","), Peg::Call(Rule::Expr))))),
            Peg::Lit(")"),
        ),
        Rule::Suffix => any3(
            Peg::Call(Rule::MethodAccess),
            Peg::Call(Rule::PropertyAccess),
            Peg::Call(Rule::IndexAccess),
        ),
        Rule::MethodAccess => all2(Peg::Lit("."), Peg::Call(Rule::FnCall)),
        Rule::PropertyAccess => all2(Peg::Lit("."), Peg::Call(Rule::Ident)),
        Rule::IndexAccess => all3(Peg::Lit("["), Peg::Call(Rule::Expr), Peg::Lit("]")),
    }
}

pub fn rule_body(r: Rule) -> (e: Peg)
    ensures
        e == rule_spec(r),
{
    match r {
        Rule::DeclUnit => all2(Peg::Call(Rule::Declaration), Peg::End),
        Rule::MemberUnit => all2(any2(Peg::Call(Rule::FnDecl), Peg::Call(Rule::ClassField)), Peg::End),
        Rule::StatementUnit => all2(Peg::Call(Rule::Statement), Peg::End),
        Rule::Declaration => any5(
            Peg::Call(Rule::UseDecl),
            Peg::Call(Rule::ClassDecl),
            Peg::Call(Rule::EnumDecl),
            Peg::Call(Rule::ErrorDecl),
            Peg::Call(Rule::FnDecl),
        ),
        Rule::UseDecl => all3(Peg::Key("use"), Peg::Call(Rule::Path), Peg::Lit(";")),
        Rule::Path => all2(
            join(Peg::One(Class::Start), Peg::Run(Class::Word)),
            many(join(Peg::Lit("."), join(Peg::One(Class::Start), Peg::Run(Class::Word)))),
        ),
        Rule::ClassDecl => all6(
            opt(Peg::Call(Rule::Parents)),
            any3(Peg::Call(Rule::IsGlobal), Peg::Call(Rule::IsExtern), Peg::Key("class")),
            Peg::Call(Rule::Ident),
            opt(Peg::Call(Rule::GenericParams)),
            opt(Peg::Call(Rule::Parents)),
            any2(Peg::Call(Rule::ClassBody), Peg::Lit(";")),
        ),
        Rule::IsGlobal => Peg::Key("contract"),
        Rule::IsExtern => any2(Peg::Key("interface"), all2(Peg::Key("extern"), Peg::Key("class"))),
        Rule::GenericParams => all3(
            Peg::Lit("("),
            all2(
                Peg::Call(Rule::GenericParam),
                many(all2(Peg::Lit(","), Peg::Call(Rule::GenericParam))),
            ),
            Peg::Lit(")"),
        ),
        Rule::GenericParam => all2(Peg::Call(Rule::Ident), Peg::Call(Rule::Ident)),
        Rule::Parents => all3(
            Peg::Lit("["),
            all2(Peg::Call(Rule::Ident), many(all2(Peg::Lit(","), Peg::Call(Rule::Ident)))),
            Peg::Lit("]"),
        ),
        Rule::ClassBody => all3(
            Peg::Lit("{"),
            many(any2(Peg::Call(Rule::FnDecl), Peg::Call(Rule::ClassField))),
            Peg::Lit("}"),
        ),
        Rule::ClassField => all4(
            many(any2(Peg::Call(Rule::IsConst), Peg::Call(Rule::IsTransient))),
            Peg::Call(Rule::TypeKeyword),
            Peg::Call(Rule::Ident),
            Peg::Lit(";"),
        ),
        Rule::IsConst => Peg::Key("const"),
        Rule::IsTransient => Peg::Key("transient"),
        Rule::IsMut => Peg::Key("mut"),
        Rule::EnumDecl => all5(
            Peg::Key("enum"),
            Peg::Call(Rule::Ident),
            Peg::Lit("{"),
            many(all2(Peg::Call(Rule::Variant), opt(any2(Peg::Lit(";"), Peg::Lit(","))))),
            Peg::Lit("}"),
        ),
        Rule::Variant => all2(
            Peg::Call(Rule::Ident),
            opt(all3(Peg::Lit("("), Peg::Call(Rule::ParamList), Peg::Lit(")"))),
        ),
        Rule::ErrorDecl => all4(
            Peg::Key("error"),
            Peg::Call(Rule::Ident),
            opt(all3(Peg::Lit("("), opt(Peg::Call(Rule::ParamList)), Peg::Lit(")"))),
            Peg::Lit(";"),
        ),
        Rule::FnDecl => all9(
            opt(Peg::Call(Rule::FnAttrs)),
            many(Peg::Call(Rule::Modifier)),
            Peg::Key("fn"),
            Peg::Call(Rule::Ident),
            Peg::Lit("("),
            opt(Peg::Call(Rule::ParamList)),
            Peg::Lit(")"),
            opt(all2(Peg::Lit("->"), Peg::Call(Rule::TypeKeyword))),
            any2(Peg::Call(Rule::Block), Peg::Lit(";")),
        ),
        Rule::FnAttrs => all3(
            Peg::Lit("["),
            all2(Peg::Call(Rule::Ident), many(all2(Peg::Lit(","), Peg::Call(Rule::Ident)))),
            Peg::Lit("]"),
        ),
        Rule::Modifier => any4(Peg::Key("export"), Peg::Key("payable"), Peg::Key("once"), Peg::Key("unsafe")),
        Rule::ParamList => all2(
            any2(Peg::Call(Rule::SelfParam), Peg::Call(Rule::Param)),
            many(all2(Peg::Lit(","), any2(Peg::Call(Rule::SelfParam), Peg::Call(Rule::Param)))),
        ),
        Rule::SelfParam => Peg::Key("self"),
        Rule::Param => all3(opt(Peg::Call(Rule::IsMut)), Peg::Call(Rule::TypeKeyword), Peg::Call(Rule::Ident)),
        Rule::Ident => join(Peg::One(Class::Start), Peg::Run(Class::Word)),
        Rule::TypeKeyword => any3(
            Peg::Call(Rule::ArrayType),
            Peg::Call(Rule::GenericType),
            Peg::Call(Rule::TypeIdent),
        ),
        Rule::TypeIdent => join(Peg::One(Class::Start), Peg::Run(Class::Word)),
        Rule::GenericType => all4(
            Peg::Call(Rule::Ident),
            Peg::Lit("("),
            all2(
                Peg::Call(Rule::TypeKeyword),
                many(all2(Peg::Lit(","), Peg::Call(Rule::TypeKeyword))),
            ),
            Peg::Lit(")"),
        ),
        Rule::ArrayType => all4(
            Peg::Lit("["),
            Peg::Call(Rule::TypeKeyword),
            opt(all2(Peg::Lit(";"), Peg::Call(Rule::Number))),
            Peg::Lit("]"),
        ),
        Rule::Number => any2(
            join(Peg::Lit("0x"), join(Peg::One(Class::Hex), Peg::Run(Class::Hex))),
            join(
                Peg::One(Class::Digit),
                join(
                    Peg::Run(Class::Digit),
                    opt(
                        join(
                            Peg::Lit("."),
                            join(Peg::One(Class::Digit), Peg::Run(Class::Digit)),
                        ),
                    ),
                ),
            ),
        ),
        Rule::Block => all3(Peg::Lit("{"), many(Peg::Call(Rule::Statement)), Peg::Lit("}")),
        Rule::Statement => any9(
            Peg::Call(Rule::UnsafeBlock),
            Peg::Call(Rule::AssertStmt),
            Peg::Call(Rule::ReturnStmt),
            Peg::Call(Rule::RevertStmt),
            Peg::Call(Rule::DeleteStmt),
            Peg::Call(Rule::IfStmt),
            Peg::Call(Rule::ForStmt),
            Peg::Call(Rule::WhileStmt),
            any8(
                Peg::Call(Rule::TryStmt),
                Peg::Call(Rule::MatchStmt),
                Peg::Call(Rule::BitwiseFlip),
                Peg::Call(Rule::CallStmt),
                Peg::Call(Rule::VarDecl),
                Peg::Call(Rule::Assignment),
                Peg::Call(Rule::CompoundAssignment),
                Peg::Call(Rule::ExprStmt),
            ),
        ),
        Rule::UnsafeBlock => all2(Peg::Key("unsafe"), Peg::Balanced),
        Rule::AssertStmt => all6(
            Peg::Key("assert"),
            Peg::Lit("("),
            Peg::Call(Rule::Expr),
            opt(all2(Peg::Lit(","), Peg::Call(Rule::Expr))),
            Peg::Lit(")"),
            Peg::Lit(";"),
        ),
        Rule::ReturnStmt => all3(Peg::Key("return"), opt(Peg::Call(Rule::Expr)), Peg::Lit(";")),
        Rule::RevertStmt => all3(Peg::Key("revert"), Peg::Call(Rule::Expr), Peg::Lit(";")),
        Rule::DeleteStmt => all3(Peg::Key("delete"), Peg::Call(Rule::Term), Peg::Lit(";")),
        Rule::IfStmt => all4(
            Peg::Key("if"),
            Peg::Call(Rule::Expr),
            Peg::Call(Rule::Block),
            opt(all2(Peg::Key("else"), any2(Peg::Call(Rule::Block), Peg::Call(Rule::ElseIf)))),
        ),
        Rule::ElseIf => Peg::Call(Rule::NestedIf),
        Rule::NestedIf => Peg::Call(Rule::IfStmt),
        Rule::ForStmt => all5(
            Peg::Key("for"),
            Peg::Call(Rule::Ident),
            Peg::Key("in"),
            Peg::Call(Rule::Expr),
            Peg::Call(Rule::Block),
        ),
        Rule::WhileStmt => all3(Peg::Key("while"), Peg::Call(Rule::Expr), Peg::Call(Rule::Block)),
        Rule::TryStmt => all4(Peg::Key("try"), Peg::Call(Rule::Block), Peg::Key("catch"), Peg::Call(Rule::Block)),
        Rule::MatchStmt => all5(
            Peg::Key("match"),
            Peg::Call(Rule::Expr),
            Peg::Lit("{"),
            many(Peg::Call(Rule::MatchArm)),
            Peg::Lit("}"),
        ),
        Rule::MatchArm => all3(
            Peg::Call(Rule::Ident),
            opt(all3(Peg::Lit("("), Peg::Call(Rule::Ident), Peg::Lit(")"))),
            Peg::Call(Rule::Block),
        ),
        Rule::BitwiseFlip => all8(
            Peg::Key("flip"),
            Peg::Call(Rule::Ident),
            Peg::Lit("["),
            Peg::Call(Rule::Expr),
            Peg::Lit("]"),
            Peg::Lit("="),
            Peg::Call(Rule::Expr),
            Peg::Lit(";"),
        ),
        Rule::CallStmt => all6(
            Peg::Key("call"),
            Peg::Call(Rule::Ident),
            Peg::Lit("("),
            opt(all2(Peg::Call(Rule::Expr), many(all2(Peg::Lit(","), Peg::Call(Rule::Expr))))),
            Peg::Lit(")"),
            Peg::Lit(";"),
        ),
        Rule::VarDecl => any3(
            all6(
                many(any2(Peg::Call(Rule::IsMut), Peg::Call(Rule::IsConst))),
                Peg::Call(Rule::VarKw),
                Peg::Call(Rule::Ident),
                Peg::Lit("="),
                Peg::Call(Rule::Expr),
                Peg::Lit(";"),
            ),
            all5(
                many(any2(Peg::Call(Rule::IsMut), Peg::Call(Rule::IsConst))),
                Peg::Call(Rule::TypeKeyword),
                Peg::Call(Rule::Ident),
                opt(all2(Peg::Lit("="), Peg::Call(Rule::Expr))),
                Peg::Lit(";"),
            ),
            all6(
                any2(Peg::Call(Rule::IsMut), Peg::Call(Rule::IsConst)),
                many(any2(Peg::Call(Rule::IsMut), Peg::Call(Rule::IsConst))),
                Peg::Call(Rule::Ident),
                Peg::Lit("="),
                Peg::Call(Rule::Expr),
                Peg::Lit(";"),
            ),
        ),
        Rule::VarKw => Peg::Key("var"),
        Rule::Assignment => all4(Peg::Call(Rule::Term), Peg::Lit("="), Peg::Call(Rule::Expr), Peg::Lit(";")),
        Rule::CompoundAssignment => all4(
            Peg::Call(Rule::Term),
            Peg::Call(Rule::CompoundOp),
            Peg::Call(Rule::Expr),
            Peg::Lit(";"),
        ),
        Rule::CompoundOp => any9(
            Peg::Lit("**="),
            Peg::Lit("+="),
            Peg::Lit("-="),
            Peg::Lit("*="),
            Peg::Lit("/="),
            Peg::Lit("%="),
            Peg::Lit("<<="),
            Peg::Lit(">>="),
            any3(Peg::Lit("&="), Peg::Lit("|="), Peg::Lit("^=")),
        ),
        Rule::ExprStmt => all2(Peg::Call(Rule::Expr), Peg::Lit(";")),
        Rule::Expr => all2(Peg::Call(Rule::Term), many(all2(Peg::Call(Rule::BinOp), Peg::Call(Rule::Term)))),
        Rule::BinOp => any9(
            Peg::Lit("||"),
            Peg::Lit("&&"),
            Peg::Lit("=="),
            Peg::Lit("!="),
            Peg::Lit("<="),
            Peg::Lit(">="),
            Peg::Lit("<<"),
            Peg::Lit(">>"),
            any9(
                Peg::Lit("**"),
                Peg::Lit("<"),
                Peg::Lit(">"),
                Peg::Lit("+"),
                Peg::Lit("-"),
                Peg::Lit("*"),
                Peg::Lit("/"),
                Peg::Lit("%"),
                any3(Peg::Lit("|"), Peg::Lit("^"), Peg::Lit("&")),
            ),
        ),
        Rule::Term => all3(
            opt(Peg::Call(Rule::UnaryOp)),
            Peg::Call(Rule::Atom),
            many(Peg::Call(Rule::Suffix)),
        ),
        Rule::UnaryOp => any2(Peg::Lit("-"), Peg::Lit("!")),
        Rule::Atom => any8(
            Peg::Call(Rule::Number),
            Peg::Call(Rule::FStringLiteral),
            Peg::Call(Rule::StringLiteral),
            Peg::Call(Rule::ArrayLiteral),
            Peg::Call(Rule::ParenExpr),
            Peg::Call(Rule::Instantiation),
            Peg::Call(Rule::FnCall),
            Peg::Call(Rule::Ident),
        ),
        Rule::StringLiteral => join(Peg::Lit("\""), join(Peg::Run(Class::Unquoted), Peg::Lit("\""))),
        Rule::FStringLiteral => join(Peg::Lit("f\""), join(Peg::Run(Class::Unquoted), Peg::Lit("\""))),
        Rule::ParenExpr => all3(Peg::Lit("("), Peg::Call(Rule::Expr), Peg::Lit(")")),
        Rule::ArrayLiteral => all3(
            Peg::Lit("["),
            opt(all2(Peg::Call(Rule::Expr), many(all2(Peg::Lit(","), Peg::Call(Rule::Expr))))),
            Peg::Lit("]"),
        ),
        Rule::Instantiation => all6(
            Peg::Call(Rule::MadeType),
            Peg::Lit("."),
            Peg::Key("new"),
            Peg::Lit("("),
            opt(all2(Peg::Call(Rule::Expr), many(all2(Peg::Lit(","), Peg::Call(Rule::Expr))))),
            Peg::Lit(")"),
        ),
        Rule::MadeType => any2(
            Peg::Call(Rule::GenericType),
            all2(no(any2(Peg::Key("self"), Peg::Key("super"))), Peg::Call(Rule::TypeIdent)),
        ),
        Rule::FnCall => all4(
            Peg::Call(Rule::Ident),
            Peg::Lit("("),
            opt(all2(Peg::Call(Rule::Expr), many(all2(Peg::Lit(","), Peg::Call(Rule::Expr))))),
            Peg::Lit(")"),
        ),
        Rule::Suffix => any3(
            Peg::Call(Rule::MethodAccess),
            Peg::Call(Rule::PropertyAccess),
            Peg::Call(Rule::IndexAccess),
        ),
        Rule::MethodAccess => all2(Peg::Lit("."), Peg::Call(Rule::FnCall)),
        Rule::PropertyAccess => all2(Peg::Lit("."), Peg::Call(Rule::Ident)),
        Rule::IndexAccess => all3(Peg::Lit("["), Peg::Call(Rule::Expr), Peg::Lit("]")),
    }
}

pub open spec fn in_class(c: char, k: Class) -> bool {
    match k {
        Class::Digit => '0' <= c && c <= '9',
        Class::Hex => ('0' <= c && c <= '9') || ('a' <= c && c <= 'f') || ('A' <= c && c <= 'F'),
        Class::Start => ('a' <= c && c <= 'z') || ('A' <= c && c <= 'Z') || c == '_',
        Class::Word => ('a' <= c && c <= 'z') || ('A' <= c && c <= 'Z') || c == '_' || ('0' <= c
            && c <= '9'),
        Class::Unquoted => c != '"',
    }
}

fn is_in(c: char, k: Class) -> (r: bool)
    ensures
        r == in_class(c, k),
{
    match k {
        Class::Digit => '0' <= c && c <= '9',
        Class::Hex => ('0' <= c && c <= '9') || ('a' <= c && c <= 'f') || ('A' <= c && c <= 'F'),
        Class::Start => ('a' <= c && c <= 'z') || ('A' <= c && c <= 'Z') || c == '_',
        Class::Word => ('a' <= c && c <= 'z') || ('A' <= c && c <= 'Z') || c == '_' || ('0' <= c
            && c <= '9'),
        Class::Unquoted => c != '"',
    }
}

/// Where a run of characters that starts at `p` ends.
pub open spec fn run_end(s: Seq<char>, p: int, k: Class) -> int
    decreases s.len() - p,
{
    if 0 <= p < s.len() && in_class(s[p], k) {
        run_end(s, p + 1, k)
    } else {
        p
    }
}

fn end_of_run(s: &Vec<char>, p: usize, k: Class) -> (r: usize)
    requires
        p <= s@.len(),
    ensures
        r == run_end(s@, p as int, k),
        p <= r <= s@.len(),
{
    let mut i: usize = p;
    while i < s.len() && is_in(s[i], k)
        invariant
            p <= i <= s@.len(),
            run_end(s@, p as int, k) == run_end(s@, i as int, k),
        decreases s@.len() - i,
    {
        i += 1;
    }
    i
}

/// White space between words.
pub open spec fn is_gap(c: char) -> bool {
    c == ' ' || c == '\t' || c == '\r' || c == '\n'
}

/// Where the next part starts: behind white space and comments.
pub open spec fn skip(s: Seq<char>, p: int) -> int
    decreases s.len() - p,
{
    if p < 0 || p >= s.len() {
        p
    } else if is_gap(s[p]) {
        skip(s, p + 1)
    } else if s[p] == '/' && p + 1 < s.len() && s[p + 1] == '/' {
        proof {
            lemma_next_char(s, p, '\n');
        }
        if next_char(s, p, '\n') > p {
            skip(s, next_char(s, p, '\n'))
        } else {
            p
        }
    } else {
        p
    }
}

fn skip_gap(s: &Vec<char>, p: usize) -> (r: usize)
    requires
        p <= s@.len(),
    ensures
        r == skip(s@, p as int),
        p <= r <= s@.len(),
{
    let mut i: usize = p;
    loop
        invariant
            p <= i <= s@.len(),
            skip(s@, p as int) == skip(s@, i as int),
        decreases s@.len() - i,
    {
        if i >= s.len() {
            return i;
        }
        let c = s[i];
        if c == ' ' || c == '\t' || c == '\r' || c == '\n' {
            i += 1;
        } else if c == '/' && s.len() - i > 1 && s[i + 1] == '/' {
            let start = i;
            assert(s@[i as int] != '\n');
            while i < s.len() && s[i] != '\n'
                invariant
                    start <= i <= s@.len(),
                    start < s@.len(),
                    s@[start as int] != '\n',
                    next_char(s@, start as int, '\n') == next_char(s@, i as int, '\n'),
                decreases s@.len() - i,
            {
                i += 1;
            }
            assert(i == next_char(s@, start as int, '\n'));
            assert(i > start);
        } else {
            return i;
        }
    }
}

/// Whether a text stands at a position.
pub open spec fn stands_at(s: Seq<char>, p: int, t: Seq<char>) -> bool {
    0 <= p && p + t.len() <= s.len() && s.subrange(p, p + t.len()) == t
}

fn text_at(s: &Vec<char>, p: usize, t: &str) -> (r: Option<usize>)
    requires
        p <= s@.len(),
    ensures
        match r {
            Some(q) => stands_at(s@, p as int, t@) && q == p + t@.len(),
            None => !stands_at(s@, p as int, t@),
        },
{
    let v = chars_of(t);
    let n = s.len();
    if v.len() > n - p {
        return None;
    }
    let mut i: usize = 0;
    while i < v.len()
        invariant
            v@ == t@,
            i <= v@.len(),
            p + v@.len() <= n == s@.len(),
            forall|k: int| 0 <= k < i ==> s@[p + k] == #[trigger] v@[k],
        decreases v@.len() - i,
    {
        if s[p + i] != v[i] {
            assert(s@.subrange(p as int, p + t@.len())[i as int] != t@[i as int]);
            return None;
        }
        i += 1;
    }
    assert(s@.subrange(p as int, p + t@.len()) =~= t@);
    Some(p + v.len())
}

/// Behind the brace that closes the `depth` open ones, from `p` on.
pub open spec fn closing(s: Seq<char>, p: int, depth: nat) -> Option<int>
    decreases s.len() - p,
{
    if p < 0 || p >= s.len() {
        None
    } else if s[p] == '{' {
        closing(s, p + 1, depth + 1)
    } else if s[p] == '}' {
        if depth <= 1 {
            Some(p + 1)
        } else {
            closing(s, p + 1, (depth - 1) as nat)
        }
    } else {
        closing(s, p + 1, depth)
    }
}

fn end_of_block(s: &Vec<char>, p: usize) -> (r: Option<usize>)
    requires
        p < s@.len(),
        s@[p as int] == '{',
    ensures
        match r {
            Some(q) => closing(s@, p as int, 0) == Some(q as int) && p <= q <= s@.len(),
            None => closing(s@, p as int, 0) is None,
        },
{
    let mut i: usize = p;
    let mut depth: usize = 0;
    while i < s.len()
        invariant
            p <= i <= s@.len(),
            depth <= i - p,
            closing(s@, p as int, 0) == closing(s@, i as int, depth as nat),
        decreases s@.len() - i,
    {
        let c = s[i];
        if c == '{' {
            depth += 1;
        } else if c == '}' {
            if depth <= 1 {
                return Some(i + 1);
            }
            depth -= 1;
        }
        i += 1;
    }
    None
}

/// One more, as far as a position can be counted.
pub open spec fn bump(n: usize) -> usize {
    if n < usize::MAX {
        (n + 1) as usize
    } else {
        n
    }
}

fn bumped(n: usize) -> (r: usize)
    ensures
        r == bump(n),
{
    if n < usize::MAX {
        n + 1
    } else {
        n
    }
}

/// The line and the column of a position, counted from one; `line` and `col` are those
/// of position `i`.
pub open spec fn place_from(s: Seq<char>, i: int, p: int, line: usize, col: usize) -> (usize, usize)
    decreases p - i,
{
    if i < p && 0 <= i < s.len() {
        if s[i] == '\n' {
            place_from(s, i + 1, p, bump(line), 1)
        } else {
            place_from(s, i + 1, p, line, bump(col))
        }
    } else {
        (line, col)
    }
}

pub open spec fn place_at(s: Seq<char>, p: int) -> (usize, usize) {
    place_from(s, 0, p, 1, 1)
}

pub fn line_col(s: &Vec<char>, p: usize) -> (r: (usize, usize))
    requires
        p <= s@.len(),
    ensures
        r == place_at(s@, p as int),
{
    let mut line: usize = 1;
    let mut col: usize = 1;
    let mut i: usize = 0;
    while i < p
        invariant
            i <= p <= s@.len(),
            place_at(s@, p as int) == place_from(s@, i as int, p as int, line, col),
        decreases p - i,
    {
        if s[i] == '\n' {
            line = bumped(line);
            col = 1;
        } else {
            col = bumped(col);
        }
        i += 1;
    }
    (line, col)
}

/// What came of matching: how far it got, and where the match ends with what the rules
/// in it have matched.
pub struct MatchV {
    pub far: int,
    pub out: Option<(int, Seq<NodeV>)>,
}

pub open spec fn farther(a: int, b: int) -> int {
    if a < b {
        b
    } else {
        a
    }
}

pub open spec fn hit(q: int) -> MatchV {
    MatchV { far: q, out: Some((q, Seq::empty())) }
}

pub open spec fn miss(p: int) -> MatchV {
    MatchV { far: p, out: None }
}

pub open spec fn hit_if(b: bool, p: int, q: int) -> MatchV {
    if b {
        hit(q)
    } else {
        miss(p)
    }
}

/// Whether a rule's place is kept.
pub open spec fn is_placed(r: Rule) -> bool {
    r == Rule::Statement || r == Rule::NestedIf
}

pub open spec fn node_spec(r: Rule, s: Seq<char>, p: int, q: int, kids: Seq<NodeV>) -> NodeV {
    let at = if is_placed(r) {
        place_at(s, p)
    } else {
        (0usize, 0usize)
    };
    NodeV {
        rule: r,
        text: s.subrange(p, q),
        line: at.0,
        col: at.1,
        kids,
    }
}

/// One part, then another.
pub open spec fn then_match(a: MatchV, b: MatchV, xs: Seq<NodeV>) -> MatchV {
    MatchV {
        far: farther(a.far, b.far),
        out: match b.out {
            Some((r, ys)) => Some((r, xs + ys)),
            None => None,
        },
    }
}

/// What matching a text at `p` gives; rules call each other `d` deep at most.
pub open spec fn match_spec(e: Peg, s: Seq<char>, p: int, d: nat) -> MatchV
    decreases d, e, s.len() - p,
{
    match e {
        Peg::Lit(t) => hit_if(stands_at(s, p, t@), p, p + t@.len()),
        Peg::Key(t) => hit_if(
            stands_at(s, p, t@) && !(p + t@.len() < s.len() && in_class(
                s[p + t@.len()],
                Class::Word,
            )),
            p,
            p + t@.len(),
        ),
        Peg::One(k) => hit_if(0 <= p < s.len() && in_class(s[p], k), p, p + 1),
        Peg::Run(k) => hit(run_end(s, p, k)),
        Peg::Balanced => if 0 <= p < s.len() && s[p] == '{' {
            match closing(s, p, 0) {
                Some(q) => hit(q),
                None => miss(p),
            }
        } else {
            miss(p)
        },
        Peg::End => hit_if(skip(s, p) >= s.len(), skip(s, p), s.len() as int),
        Peg::Cat(a, b) => {
            let x = match_spec(*a, s, p, d);
            match x.out {
                Some((q, xs)) => then_match(x, match_spec(*b, s, skip(s, q), d), xs),
                None => x,
            }
        },
        Peg::Join(a, b) => {
            let x = match_spec(*a, s, p, d);
            match x.out {
                Some((q, xs)) => then_match(x, match_spec(*b, s, q, d), xs),
                None => x,
            }
        },
        Peg::Or(a, b) => {
            let x = match_spec(*a, s, p, d);
            match x.out {
                Some(_) => x,
                None => then_match(x, match_spec(*b, s, p, d), Seq::empty()),
            }
        },
        Peg::Many(a) => {
            let x = match_spec(*a, s, p, d);
            match x.out {
                Some((q, xs)) => {
                    let t = skip(s, q);
                    if p < q && p < t <= s.len() {
                        let y = match_spec(e, s, t, d);
                        match y.out {
                            Some((r, ys)) => MatchV {
                                far: farther(x.far, y.far),
                                out: Some(
                                    (
                                        if r == t {
                                            q
                                        } else {
                                            r
                                        },
                                        xs + ys,
                                    ),
                                ),
                            },
                            None => y,
                        }
                    } else {
                        MatchV { far: x.far, out: Some((p, Seq::empty())) }
                    }
                },
                None => MatchV { far: x.far, out: Some((p, Seq::empty())) },
            }
        },
        Peg::Opt(a) => {
            let x = match_spec(*a, s, p, d);
            match x.out {
                Some(_) => x,
                None => MatchV { far: x.far, out: Some((p, Seq::empty())) },
            }
        },
        Peg::Not(a) => match match_spec(*a, s, p, d).out {
            Some(_) => miss(p),
            None => hit(p),
        },
        Peg::Call(r) => if d == 0 {
            miss(p)
        } else {
            let x = match_spec(rule_spec(r), s, p, (d - 1) as nat);
            match x.out {
                Some((q, xs)) => MatchV {
                    far: x.far,
                    out: Some((q, seq![node_spec(r, s, p, q, xs)])),
                },
                None => x,
            }
        },
    }
}

/// What came of matching.
pub struct Found {
    pub far: usize,
    pub out: Option<(usize, Vec<Node>)>,
}

impl Found {
    pub open spec fn view(&self) -> MatchV {
        MatchV {
            far: self.far as int,
            out: match self.out {
                Some((q, v)) => Some((q as int, nodes_v(v@))),
                None => None,
            },
        }
    }

    /// It ends within a text of the given length, no earlier than it starts.
    pub open spec fn within(&self, p: int, n: int) -> bool {
        self.far <= n && (self.out matches Some((q, _)) ==> p <= q <= n)
    }
}

fn found(q: usize) -> (r: Found)
    ensures
        r@ == hit(q as int),
        r.out matches Some((x, _)) && x == q,
        r.far == q,
{
    let v: Vec<Node> = Vec::new();
    assert(nodes_v(v@) =~= Seq::<NodeV>::empty());
    Found { far: q, out: Some((q, v)) }
}

fn not_found(p: usize) -> (r: Found)
    ensures
        r@ == miss(p as int),
        r.out is None,
        r.far == p,
{
    Found { far: p, out: None }
}

fn max_of(a: usize, b: usize) -> (r: usize)
    ensures
        r == farther(a as int, b as int),
{
    if a < b {
        b
    } else {
        a
    }
}

fn both(xs: Vec<Node>, ys: Vec<Node>) -> (r: Vec<Node>)
    ensures
        nodes_v(r@) == nodes_v(xs@) + nodes_v(ys@),
{
    let mut xs = xs;
    let mut ys = ys;
    let ghost a = nodes_v(xs@);
    let ghost b = nodes_v(ys@);
    xs.append(&mut ys);
    assert(nodes_v(xs@) =~= a + b);
    xs
}

/// One part, then another that has been matched behind it.
fn in_turn(far: usize, xs: Vec<Node>, b: Found) -> (r: Found)
    ensures
        r@ == then_match(MatchV { far: far as int, out: None }, b@, nodes_v(xs@)),
        r.far == farther(far as int, b.far as int),
        match b.out {
            Some((q, _)) => r.out matches Some((x, _)) && x == q,
            None => r.out is None,
        },
{
    let ghost xv = nodes_v(xs@);
    match b.out {
        Some((q, ys)) => {
            Found { far: max_of(far, b.far), out: Some((q, both(xs, ys))) }
        },
        None => Found { far: max_of(far, b.far), out: None },
    }
}

fn make_node(r: Rule, s: &Vec<char>, p: usize, q: usize, kids: Vec<Node>) -> (n: Node)
    requires
        p <= q <= s@.len(),
    ensures
        n@ == node_spec(r, s@, p as int, q as int, nodes_v(kids@)),
{
    let text = slice_text(s, p, q);
    let placed = match r {
        Rule::Statement => true,
        Rule::NestedIf => true,
        _ => false,
    };
    let at: (usize, usize) = if placed {
        line_col(s, p)
    } else {
        (0, 0)
    };
    let n = Node { rule: r, text, line: at.0, col: at.1, kids };
    n
}

/// Matches a text at `p`.
#[verifier::rlimit(40)]
pub fn match_at(e: &Peg, s: &Vec<char>, p: usize, d: u128) -> (r: Found)
    requires
        p <= s@.len(),
    ensures
        r@ == match_spec(*e, s@, p as int, d as nat),
        r.within(p as int, s@.len() as int),
    decreases d, *e, s@.len() - p,
{
    match e {
        Peg::Lit(t) => match text_at(s, p, t) {
            Some(q) => found(q),
            None => not_found(p),
        },
        Peg::Key(t) => match text_at(s, p, t) {
            Some(q) => {
                if q < s.len() && is_in(s[q], Class::Word) {
                    not_found(p)
                } else {
                    found(q)
                }
            },
            None => not_found(p),
        },
        Peg::One(k) => {
            if p < s.len() && is_in(s[p], *k) {
                found(p + 1)
            } else {
                not_found(p)
            }
        },
        Peg::Run(k) => found(end_of_run(s, p, *k)),
        Peg::Balanced => {
            if p < s.len() && s[p] == '{' {
                match end_of_block(s, p) {
                    Some(q) => found(q),
                    None => not_found(p),
                }
            } else {
                not_found(p)
            }
        },
        Peg::End => {
            let q = skip_gap(s, p);
            if q >= s.len() {
                found(s.len())
            } else {
                not_found(q)
            }
        },
        Peg::Cat(a, b) => {
            let x = match_at(a, s, p, d);
            match x.out {
                Some((q, xs)) => {
                    let t = skip_gap(s, q);
                    let y = match_at(b, s, t, d);
                    in_turn(x.far, xs, y)
                },
                None => not_found(x.far),
            }
        },
        Peg::Join(a, b) => {
            let x = match_at(a, s, p, d);
            match x.out {
                Some((q, xs)) => {
                    let y = match_at(b, s, q, d);
                    in_turn(x.far, xs, y)
                },
                None => not_found(x.far),
            }
        },
        Peg::Or(a, b) => {
            let x = match_at(a, s, p, d);
            match x.out {
                Some(_) => x,
                None => {
                    let y = match_at(b, s, p, d);
                    let v: Vec<Node> = Vec::new();
                    assert(nodes_v(v@) =~= Seq::<NodeV>::empty());
                    in_turn(x.far, v, y)
                },
            }
        },
        Peg::Many(a) => match_many(e, a, s, p, d),
        Peg::Opt(a) => {
            let x = match_at(a, s, p, d);
            match x.out {
                Some(_) => x,
                None => Found { far: x.far, out: found(p).out },
            }
        },
        Peg::Not(a) => match match_at(a, s, p, d).out {
            Some(_) => not_found(p),
            None => found(p),
        },
        Peg::Call(r) => {
            if d == 0 {
                not_found(p)
            } else {
                let body = rule_body(*r);
                let x = match_at(&body, s, p, d - 1);
                match x.out {
                    Some((q, xs)) => {
                        let n = make_node(*r, s, p, q, xs);
                        let ghost nv = n@;
                        let mut v: Vec<Node> = Vec::new();
                        v.push(n);
                        assert(nodes_v(v@) =~= seq![nv]);
                        Found { far: x.far, out: Some((q, v)) }
                    },
                    None => not_found(x.far),
                }
            }
        },
    }
}

fn match_many(e: &Peg, a: &Peg, s: &Vec<char>, p: usize, d: u128) -> (r: Found)
    requires
        p <= s@.len(),
        *e matches Peg::Many(x) && *x == *a,
    ensures
        r@ == match_spec(*e, s@, p as int, d as nat),
        r.within(p as int, s@.len() as int),
    decreases d, *a, s@.len() - p + 1,
{
    let x = match_at(a, s, p, d);
    match x.out {
        Some((q, xs)) => {
            let t = skip_gap(s, q);
            if p < q {
                let y = match_many(e, a, s, t, d);
                match y.out {
                    Some((r, ys)) => {
                        let end = if r == t {
                            q
                        } else {
                            r
                        };
                        Found { far: max_of(x.far, y.far), out: Some((end, both(xs, ys))) }
                    },
                    None => y,
                }
            } else {
                Found { far: x.far, out: found(p).out }
            }
        },
        None => Found { far: x.far, out: found(p).out },
    }
}

/// How deep rules may call each other in a text: more than any text needs.
pub open spec fn depth_for(n: nat) -> nat {
    16 * n + 64
}

/// A rule at the start of a text, behind white space and comments.
pub open spec fn parse_rule_spec(r: Rule, s: Seq<char>) -> MatchV {
    match_spec(Peg::Call(r), s, skip(s, 0), depth_for(s.len()))
}

/// What reads a text by the grammar.
pub struct GumParser;

impl GumParser {
    pub fn parse(r: Rule, s: &Vec<char>) -> (x: Found)
        ensures
            x@ == parse_rule_spec(r, s@),
            x.within(0, s@.len() as int),
    {
        let d: u128 = 16 * (s.len() as u128) + 64;
        let start = skip_gap(s, 0);
        match_at(&Peg::Call(r), s, start, d)
    }
}

} // verus!
