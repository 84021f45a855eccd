//! The syntax tree, and its mathematical view: the same tree over `Seq`.
use crate::text::{clone_texts, same, texts};
use vstd::prelude::*;

verus! {

#[derive(Debug)]
pub struct Program {
    pub declarations: Vec<Declaration>,
}

#[derive(Debug)]
pub enum Declaration {
    Use(UseDecl),
    Class(ClassDecl),
    Enum(EnumDecl),
    Error(ErrorDecl),
    Function(FnDecl),
}

#[derive(Debug)]
pub struct EnumDecl {
    pub name: String,
    pub variants: Vec<EnumVariant>,
}

#[derive(Debug)]
pub struct EnumVariant {
    pub name: String,
    pub parameters: Vec<Parameter>,
}

/// A custom error: what a `revert` hands to the caller.
#[derive(Debug)]
pub struct ErrorDecl {
    pub name: String,
    pub parameters: Vec<Parameter>,
}

#[derive(Debug)]
pub struct UseDecl {
    pub path: String,
}

#[derive(Debug)]
pub enum Type {
    Primitive(String),
    Generic { name: String, args: Vec<Type> },
    Array(Box<Type>),
    FixedArray(Box<Type>, usize),
}

#[derive(Debug)]
pub struct GenericParam {
    pub bound: String,
    pub name: String,
}

/// A field of a class. A const field is fixed at deploy and owns no storage
/// slot; a transient one is cleared at the end of each transaction.
#[derive(Debug)]
pub struct ClassField {
    pub is_const: bool,
    pub is_transient: bool,
    pub type_def: Type,
    pub name: String,
}

/// A class. A global one is a contract; one that `is_extern` names another
/// contract's interface.
#[derive(Debug)]
pub struct ClassDecl {
    pub is_global: bool,
    pub is_extern: bool,
    pub name: String,
    pub generic_params: Vec<GenericParam>,
    pub parents: Vec<String>,
    pub fields: Vec<ClassField>,
    pub methods: Vec<FnDecl>,
}

#[derive(Debug)]
pub struct Spanned<T> {
    pub node: T,
    pub line: usize,
    pub col: usize,
}

#[derive(Debug)]
pub struct FnDecl {
    pub modifiers: Vec<String>,
    pub attributes: Vec<String>,
    pub name: String,
    pub has_self: bool,
    pub parameters: Vec<Parameter>,
    pub return_type: Option<Type>,
    pub body: Vec<Spanned<Statement>>,
}

#[derive(Debug)]
pub struct Parameter {
    pub is_mut: bool,
    pub type_def: Type,
    pub name: String,
}

#[allow(inconsistent_fields)]
#[derive(Debug)]
pub enum Statement {
    VarDecl { is_mut: bool, is_const: bool, type_def: Type, name: String, value: Option<Expr> },
    Assignment { target: Expr, value: Expr },
    BitwiseFlip { name: String, index: Expr, value: Expr },
    /// The message is a text, or a custom error.
    Assert { condition: Expr, message: Option<Expr> },
    Revert { error: Expr },
    /// Resets an lvalue to the zero value of its type.
    Delete { target: Expr },
    Return { value: Option<Expr> },
    IfElse {
        condition: Expr,
        if_body: Vec<Spanned<Statement>>,
        else_body: Option<Vec<Spanned<Statement>>>,
    },
    ForLoop { iterator: String, iterable: Expr, body: Vec<Spanned<Statement>> },
    WhileLoop { condition: Expr, body: Vec<Spanned<Statement>> },
    TryCatch { try_body: Vec<Spanned<Statement>>, catch_body: Vec<Spanned<Statement>> },
    /// A `try` block moved into the function `thunk`, which is reached by a
    /// call of the contract to itself.
    ScopedTryCall {
        thunk: String,
        args: Vec<(String, Type)>,
        propagate_return: bool,
        writeback: Vec<(String, Type)>,
        catch_body: Vec<Spanned<Statement>>,
    },
    /// Hands the listed locals back to the caller of a thunk.
    ReturnCaptures(Vec<(String, Type)>),
    Match { expr: Expr, arms: Vec<MatchArm> },
    Expression(Expr),
    /// A low-level call of another contract.
    Call { target: String, args: Vec<Expr> },
    UnsafeBlock(String),
}

#[derive(Debug)]
pub struct MatchArm {
    pub variant: String,
    pub payload_var: Option<String>,
    pub body: Vec<Spanned<Statement>>,
}

#[derive(Debug)]
pub enum Expr {
    Number(String),
    StringLiteral(String),
    Identifier(String),
    FnCall { name: String, args: Vec<Expr> },
    Instantiation { type_def: Type, args: Vec<Expr> },
    StaticCall { type_def: Type, method: String, args: Vec<Expr> },
    PropertyAccess { base: Box<Expr>, property: String },
    MethodCall { base: Box<Expr>, method: String, args: Vec<Expr> },
    IndexAccess { base: Box<Expr>, index: Box<Expr> },
    BinaryOp { left: Box<Expr>, operator: String, right: Box<Expr> },
    FString(Vec<FStringSegment>),
    Neg(Box<Expr>),
    Not(Box<Expr>),
    ArrayLiteral(Vec<Expr>),
}

#[derive(Debug)]
pub enum FStringSegment {
    Literal(String),
    Interp(Expr),
}

/// The view of a [`Type`].
pub enum TypeV {
    Primitive(Seq<char>),
    Generic { name: Seq<char>, args: Seq<TypeV> },
    Array(Box<TypeV>),
    FixedArray(Box<TypeV>, usize),
}

/// The view of a [`ClassField`].
pub struct FieldV {
    pub is_const: bool,
    pub is_transient: bool,
    pub type_def: TypeV,
    pub name: Seq<char>,
}

/// The view of a [`Parameter`].
pub struct ParamV {
    pub is_mut: bool,
    pub type_def: TypeV,
    pub name: Seq<char>,
}

/// The view of a [`GenericParam`].
pub struct GenericV {
    pub bound: Seq<char>,
    pub name: Seq<char>,
}

/// The view of an [`EnumVariant`] and of an [`ErrorDecl`].
pub struct VariantV {
    pub name: Seq<char>,
    pub parameters: Seq<ParamV>,
}

/// The view of an [`EnumDecl`].
pub struct EnumV {
    pub name: Seq<char>,
    pub variants: Seq<VariantV>,
}

/// The view of a [`FnDecl`].
pub struct FnV {
    pub modifiers: Seq<Seq<char>>,
    pub attributes: Seq<Seq<char>>,
    pub name: Seq<char>,
    pub has_self: bool,
    pub parameters: Seq<ParamV>,
    pub return_type: Option<TypeV>,
    pub body: Seq<SpannedV>,
}

/// The view of a [`ClassDecl`].
pub struct ClassV {
    pub is_global: bool,
    pub is_extern: bool,
    pub name: Seq<char>,
    pub generic_params: Seq<GenericV>,
    pub parents: Seq<Seq<char>>,
    pub fields: Seq<FieldV>,
    pub methods: Seq<FnV>,
}

/// The view of a [`Declaration`].
pub enum DeclV {
    Use(Seq<char>),
    Class(ClassV),
    Enum(EnumV),
    Error(VariantV),
    Function(FnV),
}

/// The view of a spanned [`Statement`].
pub struct SpannedV {
    pub node: StmtV,
    pub line: usize,
    pub col: usize,
}

/// The view of a [`Statement`].
#[allow(inconsistent_fields)]
pub enum StmtV {
    VarDecl { is_mut: bool, is_const: bool, type_def: TypeV, name: Seq<char>, value: Option<ExprV> },
    Assignment { target: ExprV, value: ExprV },
    BitwiseFlip { name: Seq<char>, index: ExprV, value: ExprV },
    Assert { condition: ExprV, message: Option<ExprV> },
    Revert { error: ExprV },
    Delete { target: ExprV },
    Return { value: Option<ExprV> },
    IfElse { condition: ExprV, if_body: Seq<SpannedV>, else_body: Option<Seq<SpannedV>> },
    ForLoop { iterator: Seq<char>, iterable: ExprV, body: Seq<SpannedV> },
    WhileLoop { condition: ExprV, body: Seq<SpannedV> },
    TryCatch { try_body: Seq<SpannedV>, catch_body: Seq<SpannedV> },
    ScopedTryCall {
        thunk: Seq<char>,
        args: Seq<(Seq<char>, TypeV)>,
        propagate_return: bool,
        writeback: Seq<(Seq<char>, TypeV)>,
        catch_body: Seq<SpannedV>,
    },
    ReturnCaptures(Seq<(Seq<char>, TypeV)>),
    Match { expr: ExprV, arms: Seq<ArmV> },
    Expression(ExprV),
    Call { target: Seq<char>, args: Seq<ExprV> },
    UnsafeBlock(Seq<char>),
}

/// The view of a [`MatchArm`].
pub struct ArmV {
    pub variant: Seq<char>,
    pub payload_var: Option<Seq<char>>,
    pub body: Seq<SpannedV>,
}

/// The view of an [`Expr`].
pub enum ExprV {
    Number(Seq<char>),
    StringLiteral(Seq<char>),
    Identifier(Seq<char>),
    FnCall { name: Seq<char>, args: Seq<ExprV> },
    Instantiation { type_def: TypeV, args: Seq<ExprV> },
    StaticCall { type_def: TypeV, method: Seq<char>, args: Seq<ExprV> },
    PropertyAccess { base: Box<ExprV>, property: Seq<char> },
    MethodCall { base: Box<ExprV>, method: Seq<char>, args: Seq<ExprV> },
    IndexAccess { base: Box<ExprV>, index: Box<ExprV> },
    BinaryOp { left: Box<ExprV>, operator: Seq<char>, right: Box<ExprV> },
    FString(Seq<SegV>),
    Neg(Box<ExprV>),
    Not(Box<ExprV>),
    ArrayLiteral(Seq<ExprV>),
}

/// The view of a [`FStringSegment`].
pub enum SegV {
    Literal(Seq<char>),
    Interp(ExprV),
}

pub open spec fn types_v(s: Seq<Type>) -> Seq<TypeV>
    decreases s,
{
    Seq::new(
        s.len(),
        |i: int|
            if 0 <= i < s.len() {
                s[i].view()
            } else {
                arbitrary()
            },
    )
}

impl Type {
    pub open spec fn view(&self) -> TypeV
        decreases self,
    {
        match self {
            Type::Primitive(n) => TypeV::Primitive(n@),
            Type::Generic { name, args } => TypeV::Generic { name: name@, args: types_v(args@) },
            Type::Array(inner) => TypeV::Array(Box::new((*inner).view())),
            Type::FixedArray(inner, n) => TypeV::FixedArray(Box::new((*inner).view()), *n),
        }
    }
}

pub open spec fn opt_type_v(t: Option<Type>) -> Option<TypeV> {
    match t {
        Some(t) => Some(t@),
        None => None,
    }
}

pub open spec fn exprs_v(s: Seq<Expr>) -> Seq<ExprV>
    decreases s,
{
    Seq::new(
        s.len(),
        |i: int|
            if 0 <= i < s.len() {
                s[i].view()
            } else {
                arbitrary()
            },
    )
}

pub open spec fn segs_v(s: Seq<FStringSegment>) -> Seq<SegV>
    decreases s,
{
    Seq::new(
        s.len(),
        |i: int|
            if 0 <= i < s.len() {
                s[i].view()
            } else {
                arbitrary()
            },
    )
}

impl FStringSegment {
    pub open spec fn view(&self) -> SegV
        decreases self,
    {
        match self {
            FStringSegment::Literal(t) => SegV::Literal(t@),
            FStringSegment::Interp(e) => SegV::Interp(e.view()),
        }
    }
}

impl Expr {
    pub open spec fn view(&self) -> ExprV
        decreases self,
    {
        match self {
            Expr::Number(n) => ExprV::Number(n@),
            Expr::StringLiteral(s) => ExprV::StringLiteral(s@),
            Expr::Identifier(n) => ExprV::Identifier(n@),
            Expr::FnCall { name, args } => ExprV::FnCall { name: name@, args: exprs_v(args@) },
            Expr::Instantiation { type_def, args } => ExprV::Instantiation {
                type_def: type_def@,
                args: exprs_v(args@),
            },
            Expr::StaticCall { type_def, method, args } => ExprV::StaticCall {
                type_def: type_def@,
                method: method@,
                args: exprs_v(args@),
            },
            Expr::PropertyAccess { base, property } => ExprV::PropertyAccess {
                base: Box::new((*base).view()),
                property: property@,
            },
            Expr::MethodCall { base, method, args } => ExprV::MethodCall {
                base: Box::new((*base).view()),
                method: method@,
                args: exprs_v(args@),
            },
            Expr::IndexAccess { base, index } => ExprV::IndexAccess {
                base: Box::new((*base).view()),
                index: Box::new((*index).view()),
            },
            Expr::BinaryOp { left, operator, right } => ExprV::BinaryOp {
                left: Box::new((*left).view()),
                operator: operator@,
                right: Box::new((*right).view()),
            },
            Expr::FString(segs) => ExprV::FString(segs_v(segs@)),
            Expr::Neg(x) => ExprV::Neg(Box::new((*x).view())),
            Expr::Not(x) => ExprV::Not(Box::new((*x).view())),
            Expr::ArrayLiteral(xs) => ExprV::ArrayLiteral(exprs_v(xs@)),
        }
    }
}

pub open spec fn opt_expr_v(e: Option<Expr>) -> Option<ExprV> {
    match e {
        Some(e) => Some(e@),
        None => None,
    }
}

pub open spec fn captures_v(s: Seq<(String, Type)>) -> Seq<(Seq<char>, TypeV)> {
    Seq::new(s.len(), |i: int| (s[i].0@, s[i].1@))
}

pub open spec fn body_v(s: Seq<Spanned<Statement>>) -> Seq<SpannedV>
    decreases s,
{
    Seq::new(
        s.len(),
        |i: int|
            if 0 <= i < s.len() {
                s[i].view()
            } else {
                arbitrary()
            },
    )
}

pub open spec fn arms_v(s: Seq<MatchArm>) -> Seq<ArmV>
    decreases s,
{
    Seq::new(
        s.len(),
        |i: int|
            if 0 <= i < s.len() {
                s[i].view()
            } else {
                arbitrary()
            },
    )
}

impl Spanned<Statement> {
    pub open spec fn view(&self) -> SpannedV
        decreases self,
    {
        SpannedV { node: self.node.view(), line: self.line, col: self.col }
    }
}

pub open spec fn opt_text_v(s: Option<String>) -> Option<Seq<char>> {
    match s {
        Some(s) => Some(s@),
        None => None,
    }
}

impl MatchArm {
    pub open spec fn view(&self) -> ArmV
        decreases self,
    {
        ArmV {
            variant: self.variant@,
            payload_var: opt_text_v(self.payload_var),
            body: body_v(self.body@),
        }
    }
}

impl Statement {
    pub open spec fn view(&self) -> StmtV
        decreases self,
    {
        match self {
            Statement::VarDecl { is_mut, is_const, type_def, name, value } => StmtV::VarDecl {
                is_mut: *is_mut,
                is_const: *is_const,
                type_def: type_def@,
                name: name@,
                value: opt_expr_v(*value),
            },
            Statement::Assignment { target, value } => StmtV::Assignment {
                target: target@,
                value: value@,
            },
            Statement::BitwiseFlip { name, index, value } => StmtV::BitwiseFlip {
                name: name@,
                index: index@,
                value: value@,
            },
            Statement::Assert { condition, message } => StmtV::Assert {
                condition: condition@,
                message: opt_expr_v(*message),
            },
            Statement::Revert { error } => StmtV::Revert { error: error@ },
            Statement::Delete { target } => StmtV::Delete { target: target@ },
            Statement::Return { value } => StmtV::Return { value: opt_expr_v(*value) },
            Statement::IfElse { condition, if_body, else_body } => StmtV::IfElse {
                condition: condition@,
                if_body: body_v(if_body@),
                else_body: match else_body {
                    Some(b) => Some(body_v(b@)),
                    None => None,
                },
            },
            Statement::ForLoop { iterator, iterable, body } => StmtV::ForLoop {
                iterator: iterator@,
                iterable: iterable@,
                body: body_v(body@),
            },
            Statement::WhileLoop { condition, body } => StmtV::WhileLoop {
                condition: condition@,
                body: body_v(body@),
            },
            Statement::TryCatch { try_body, catch_body } => StmtV::TryCatch {
                try_body: body_v(try_body@),
                catch_body: body_v(catch_body@),
            },
            Statement::ScopedTryCall { thunk, args, propagate_return, writeback, catch_body } =>
                StmtV::ScopedTryCall {
                thunk: thunk@,
                args: captures_v(args@),
                propagate_return: *propagate_return,
                writeback: captures_v(writeback@),
                catch_body: body_v(catch_body@),
            },
            Statement::ReturnCaptures(fields) => StmtV::ReturnCaptures(captures_v(fields@)),
            Statement::Match { expr, arms } => StmtV::Match { expr: expr@, arms: arms_v(arms@) },
            Statement::Expression(e) => StmtV::Expression(e@),
            Statement::Call { target, args } => StmtV::Call {
                target: target@,
                args: exprs_v(args@),
            },
            Statement::UnsafeBlock(code) => StmtV::UnsafeBlock(code@),
        }
    }
}

impl Parameter {
    pub open spec fn view(&self) -> ParamV {
        ParamV { is_mut: self.is_mut, type_def: self.type_def@, name: self.name@ }
    }
}

pub open spec fn params_v(s: Seq<Parameter>) -> Seq<ParamV> {
    Seq::new(s.len(), |i: int| s[i]@)
}

impl ClassField {
    pub open spec fn view(&self) -> FieldV {
        FieldV {
            is_const: self.is_const,
            is_transient: self.is_transient,
            type_def: self.type_def@,
            name: self.name@,
        }
    }
}

pub open spec fn fields_v(s: Seq<ClassField>) -> Seq<FieldV> {
    Seq::new(s.len(), |i: int| s[i]@)
}

impl GenericParam {
    pub open spec fn view(&self) -> GenericV {
        GenericV { bound: self.bound@, name: self.name@ }
    }
}

pub open spec fn generics_v(s: Seq<GenericParam>) -> Seq<GenericV> {
    Seq::new(s.len(), |i: int| s[i]@)
}

impl EnumVariant {
    pub open spec fn view(&self) -> VariantV {
        VariantV { name: self.name@, parameters: params_v(self.parameters@) }
    }
}

impl ErrorDecl {
    pub open spec fn view(&self) -> VariantV {
        VariantV { name: self.name@, parameters: params_v(self.parameters@) }
    }
}

pub open spec fn variants_v(s: Seq<EnumVariant>) -> Seq<VariantV> {
    Seq::new(s.len(), |i: int| s[i]@)
}

impl EnumDecl {
    pub open spec fn view(&self) -> EnumV {
        EnumV { name: self.name@, variants: variants_v(self.variants@) }
    }
}

impl FnDecl {
    pub open spec fn view(&self) -> FnV {
        FnV {
            modifiers: texts(self.modifiers@),
            attributes: texts(self.attributes@),
            name: self.name@,
            has_self: self.has_self,
            parameters: params_v(self.parameters@),
            return_type: opt_type_v(self.return_type),
            body: body_v(self.body@),
        }
    }
}

pub open spec fn methods_v(s: Seq<FnDecl>) -> Seq<FnV> {
    Seq::new(s.len(), |i: int| s[i]@)
}

impl ClassDecl {
    pub open spec fn view(&self) -> ClassV {
        ClassV {
            is_global: self.is_global,
            is_extern: self.is_extern,
            name: self.name@,
            generic_params: generics_v(self.generic_params@),
            parents: texts(self.parents@),
            fields: fields_v(self.fields@),
            methods: methods_v(self.methods@),
        }
    }
}

impl Declaration {
    pub open spec fn view(&self) -> DeclV {
        match self {
            Declaration::Use(u) => DeclV::Use(u.path@),
            Declaration::Class(c) => DeclV::Class(c@),
            Declaration::Enum(e) => DeclV::Enum(e@),
            Declaration::Error(e) => DeclV::Error(e@),
            Declaration::Function(f) => DeclV::Function(f@),
        }
    }
}

pub open spec fn decls_v(s: Seq<Declaration>) -> Seq<DeclV> {
    Seq::new(s.len(), |i: int| s[i]@)
}

impl Clone for Type {
    fn clone(&self) -> (r: Self)
        ensures
            r@ == self@,
        decreases self,
    {
        match self {
            Type::Primitive(n) => Type::Primitive(n.clone()),
            Type::Generic { name, args } => {
                let mut out: Vec<Type> = Vec::new();
                let mut i: usize = 0;
                while i < args.len()
                    invariant
                        i <= args.len(),
                        out@.len() == i,
                        self is Generic,
                        *args == self->args,
                        forall|k: int| 0 <= k < i ==> (#[trigger] out@[k])@ == args@[k]@,
                    decreases args.len() - i,
                {
                    let c = args[i].clone();
                    out.push(c);
                    i += 1;
                }
                assert(types_v(out@) =~= types_v(args@));
                Type::Generic { name: name.clone(), args: out }
            },
            Type::Array(inner) => Type::Array(Box::new((**inner).clone())),
            Type::FixedArray(inner, n) => Type::FixedArray(Box::new((**inner).clone()), *n),
        }
    }
}

/// Whether two types are the same.
pub fn same_type(a: &Type, b: &Type) -> (r: bool)
    ensures
        r == (a@ == b@),
    decreases a,
{
    match (a, b) {
        (Type::Primitive(m), Type::Primitive(n)) => same(m.as_str(), n.as_str()),
        (Type::Array(i), Type::Array(j)) => same_type(i, j),
        (Type::FixedArray(i, m), Type::FixedArray(j, n)) => *m == *n && same_type(i, j),
        (Type::Generic { name: m, args: xs }, Type::Generic { name: n, args: ys }) => {
            if !same(m.as_str(), n.as_str()) || xs.len() != ys.len() {
                assert(types_v(xs@).len() == xs@.len() && types_v(ys@).len() == ys@.len());
                return false;
            }
            let mut i: usize = 0;
            while i < xs.len()
                invariant
                    i <= xs@.len(),
                    xs@.len() == ys@.len(),
                    a is Generic,
                    b is Generic,
                    *xs == a->args,
                    *ys == b->args,
                    a@ == (TypeV::Generic { name: m@, args: types_v(xs@) }),
                    b@ == (TypeV::Generic { name: n@, args: types_v(ys@) }),
                    forall|k: int| 0 <= k < i ==> (#[trigger] xs@[k])@ == ys@[k]@,
                decreases xs@.len() - i,
            {
                if !same_type(&xs[i], &ys[i]) {
                    proof {
                        assert(types_v(xs@)[i as int] == xs@[i as int]@);
                        assert(types_v(ys@)[i as int] == ys@[i as int]@);
                    }
                    return false;
                }
                i += 1;
            }
            assert(types_v(xs@) =~= types_v(ys@));
            true
        },
        _ => false,
    }
}

pub fn clone_opt_type(t: &Option<Type>) -> (r: Option<Type>)
    ensures
        opt_type_v(r) == opt_type_v(*t),
{
    match t {
        Some(t) => Some(t.clone()),
        None => None,
    }
}

pub fn clone_opt_text(t: &Option<String>) -> (r: Option<String>)
    ensures
        opt_text_v(r) == opt_text_v(*t),
{
    match t {
        Some(t) => Some(t.clone()),
        None => None,
    }
}

fn copy_exprs(v: &Vec<Expr>) -> (r: Vec<Expr>)
    ensures
        exprs_v(r@) == exprs_v(v@),
    decreases v,
{
    let mut out: Vec<Expr> = Vec::new();
    let mut i: usize = 0;
    while i < v.len()
        invariant
            i <= v.len(),
            out@.len() == i,
            forall|k: int| 0 <= k < i ==> (#[trigger] out@[k])@ == v@[k]@,
        decreases v.len() - i,
    {
        let c = copy_expr(&v[i]);
        out.push(c);
        i += 1;
    }
    assert(exprs_v(out@) =~= exprs_v(v@));
    out
}

fn copy_segs(v: &Vec<FStringSegment>) -> (r: Vec<FStringSegment>)
    ensures
        segs_v(r@) == segs_v(v@),
    decreases v,
{
    let mut out: Vec<FStringSegment> = Vec::new();
    let mut i: usize = 0;
    while i < v.len()
        invariant
            i <= v.len(),
            out@.len() == i,
            forall|k: int| 0 <= k < i ==> (#[trigger] out@[k])@ == v@[k]@,
        decreases v.len() - i,
    {
        let seg: &FStringSegment = &v[i];
        let c = match seg {
            FStringSegment::Literal(t) => FStringSegment::Literal(t.clone()),
            FStringSegment::Interp(e) => FStringSegment::Interp(copy_expr(e)),
        };
        out.push(c);
        i += 1;
    }
    assert(segs_v(out@) =~= segs_v(v@));
    out
}

fn copy_expr(e: &Expr) -> (r: Expr)
    ensures
        r@ == e@,
    decreases e,
{
    match e {
        Expr::Number(n) => Expr::Number(n.clone()),
        Expr::StringLiteral(s) => Expr::StringLiteral(s.clone()),
        Expr::Identifier(n) => Expr::Identifier(n.clone()),
        Expr::FnCall { name, args } => Expr::FnCall { name: name.clone(), args: copy_exprs(args) },
        Expr::Instantiation { type_def, args } => Expr::Instantiation {
            type_def: type_def.clone(),
            args: copy_exprs(args),
        },
        Expr::StaticCall { type_def, method, args } => Expr::StaticCall {
            type_def: type_def.clone(),
            method: method.clone(),
            args: copy_exprs(args),
        },
        Expr::PropertyAccess { base, property } => Expr::PropertyAccess {
            base: Box::new(copy_expr(base)),
            property: property.clone(),
        },
        Expr::MethodCall { base, method, args } => Expr::MethodCall {
            base: Box::new(copy_expr(base)),
            method: method.clone(),
            args: copy_exprs(args),
        },
        Expr::IndexAccess { base, index } => Expr::IndexAccess {
            base: Box::new(copy_expr(base)),
            index: Box::new(copy_expr(index)),
        },
        Expr::BinaryOp { left, operator, right } => Expr::BinaryOp {
            left: Box::new(copy_expr(left)),
            operator: operator.clone(),
            right: Box::new(copy_expr(right)),
        },
        Expr::FString(segs) => Expr::FString(copy_segs(segs)),
        Expr::Neg(x) => Expr::Neg(Box::new(copy_expr(x))),
        Expr::Not(x) => Expr::Not(Box::new(copy_expr(x))),
        Expr::ArrayLiteral(xs) => Expr::ArrayLiteral(copy_exprs(xs)),
    }
}

impl Clone for Expr {
    fn clone(&self) -> (r: Self)
        ensures
            r@ == self@,
    {
        copy_expr(self)
    }
}

pub(crate) fn copy_opt_expr(e: &Option<Expr>) -> (r: Option<Expr>)
    ensures
        opt_expr_v(r) == opt_expr_v(*e),
{
    match e {
        Some(e) => Some(copy_expr(e)),
        None => None,
    }
}

pub(crate) fn copy_captures(v: &Vec<(String, Type)>) -> (r: Vec<(String, Type)>)
    ensures
        captures_v(r@) == captures_v(v@),
{
    let mut out: Vec<(String, Type)> = Vec::new();
    let mut i: usize = 0;
    while i < v.len()
        invariant
            i <= v.len(),
            out@.len() == i,
            forall|k: int|
                0 <= k < i ==> (#[trigger] out@[k]).0@ == v@[k].0@ && out@[k].1@ == v@[k].1@,
        decreases v.len() - i,
    {
        out.push((v[i].0.clone(), v[i].1.clone()));
        i += 1;
    }
    assert(captures_v(out@) =~= captures_v(v@));
    out
}

fn copy_body(v: &Vec<Spanned<Statement>>) -> (r: Vec<Spanned<Statement>>)
    ensures
        body_v(r@) == body_v(v@),
    decreases v,
{
    let mut out: Vec<Spanned<Statement>> = Vec::new();
    let mut i: usize = 0;
    while i < v.len()
        invariant
            i <= v.len(),
            out@.len() == i,
            forall|k: int| 0 <= k < i ==> (#[trigger] out@[k])@ == v@[k]@,
        decreases v.len() - i,
    {
        let s: &Spanned<Statement> = &v[i];
        assert(decreases_to!(*v => *s));
        let node = copy_stmt(&s.node);
        out.push(Spanned { node, line: s.line, col: s.col });
        i += 1;
    }
    assert(body_v(out@) =~= body_v(v@));
    out
}

fn copy_arms(v: &Vec<MatchArm>) -> (r: Vec<MatchArm>)
    ensures
        arms_v(r@) == arms_v(v@),
    decreases v,
{
    let mut out: Vec<MatchArm> = Vec::new();
    let mut i: usize = 0;
    while i < v.len()
        invariant
            i <= v.len(),
            out@.len() == i,
            forall|k: int| 0 <= k < i ==> (#[trigger] out@[k])@ == v@[k]@,
        decreases v.len() - i,
    {
        let a: &MatchArm = &v[i];
        assert(decreases_to!(*v => *a));
        let body = copy_body(&a.body);
        out.push(
            MatchArm {
                variant: a.variant.clone(),
                payload_var: clone_opt_text(&a.payload_var),
                body,
            },
        );
        i += 1;
    }
    assert(arms_v(out@) =~= arms_v(v@));
    out
}

fn copy_stmt(s: &Statement) -> (r: Statement)
    ensures
        r@ == s@,
    decreases s,
{
    match s {
        Statement::VarDecl { is_mut, is_const, type_def, name, value } => Statement::VarDecl {
            is_mut: *is_mut,
            is_const: *is_const,
            type_def: type_def.clone(),
            name: name.clone(),
            value: copy_opt_expr(value),
        },
        Statement::Assignment { target, value } => Statement::Assignment {
            target: copy_expr(target),
            value: copy_expr(value),
        },
        Statement::BitwiseFlip { name, index, value } => Statement::BitwiseFlip {
            name: name.clone(),
            index: copy_expr(index),
            value: copy_expr(value),
        },
        Statement::Assert { condition, message } => Statement::Assert {
            condition: copy_expr(condition),
            message: copy_opt_expr(message),
        },
        Statement::Revert { error } => Statement::Revert { error: copy_expr(error) },
        Statement::Delete { target } => Statement::Delete { target: copy_expr(target) },
        Statement::Return { value } => Statement::Return { value: copy_opt_expr(value) },
        Statement::IfElse { condition, if_body, else_body } => {
            let eb = match else_body {
                Some(b) => Some(copy_body(b)),
                None => None,
            };
            Statement::IfElse {
                condition: copy_expr(condition),
                if_body: copy_body(if_body),
                else_body: eb,
            }
        },
        Statement::ForLoop { iterator, iterable, body } => Statement::ForLoop {
            iterator: iterator.clone(),
            iterable: copy_expr(iterable),
            body: copy_body(body),
        },
        Statement::WhileLoop { condition, body } => Statement::WhileLoop {
            condition: copy_expr(condition),
            body: copy_body(body),
        },
        Statement::TryCatch { try_body, catch_body } => Statement::TryCatch {
            try_body: copy_body(try_body),
            catch_body: copy_body(catch_body),
        },
        Statement::ScopedTryCall { thunk, args, propagate_return, writeback, catch_body } =>
            Statement::ScopedTryCall {
            thunk: thunk.clone(),
            args: copy_captures(args),
            propagate_return: *propagate_return,
            writeback: copy_captures(writeback),
            catch_body: copy_body(catch_body),
        },
        Statement::ReturnCaptures(fields) => Statement::ReturnCaptures(copy_captures(fields)),
        Statement::Match { expr, arms } => Statement::Match {
            expr: copy_expr(expr),
            arms: copy_arms(arms),
        },
        Statement::Expression(e) => Statement::Expression(copy_expr(e)),
        Statement::Call { target, args } => Statement::Call {
            target: target.clone(),
            args: copy_exprs(args),
        },
        Statement::UnsafeBlock(code) => Statement::UnsafeBlock(code.clone()),
    }
}

impl Clone for Statement {
    fn clone(&self) -> (r: Self)
        ensures
            r@ == self@,
    {
        copy_stmt(self)
    }
}

impl Clone for Parameter {
    fn clone(&self) -> (r: Self)
        ensures
            r@ == self@,
    {
        Parameter {
            is_mut: self.is_mut,
            type_def: self.type_def.clone(),
            name: self.name.clone(),
        }
    }
}

pub fn clone_params(v: &Vec<Parameter>) -> (r: Vec<Parameter>)
    ensures
        params_v(r@) == params_v(v@),
{
    let mut out: Vec<Parameter> = Vec::new();
    let mut i: usize = 0;
    while i < v.len()
        invariant
            i <= v.len(),
            out@.len() == i,
            forall|k: int| 0 <= k < i ==> (#[trigger] out@[k])@ == v@[k]@,
        decreases v.len() - i,
    {
        let c = v[i].clone();
        out.push(c);
        i += 1;
    }
    assert(params_v(out@) =~= params_v(v@));
    out
}

impl Clone for ClassField {
    fn clone(&self) -> (r: Self)
        ensures
            r@ == self@,
    {
        ClassField {
            is_const: self.is_const,
            is_transient: self.is_transient,
            type_def: self.type_def.clone(),
            name: self.name.clone(),
        }
    }
}

pub fn clone_fields(v: &Vec<ClassField>) -> (r: Vec<ClassField>)
    ensures
        fields_v(r@) == fields_v(v@),
{
    let mut out: Vec<ClassField> = Vec::new();
    let mut i: usize = 0;
    while i < v.len()
        invariant
            i <= v.len(),
            out@.len() == i,
            forall|k: int| 0 <= k < i ==> (#[trigger] out@[k])@ == v@[k]@,
        decreases v.len() - i,
    {
        let c = v[i].clone();
        out.push(c);
        i += 1;
    }
    assert(fields_v(out@) =~= fields_v(v@));
    out
}

impl Clone for FnDecl {
    fn clone(&self) -> (r: Self)
        ensures
            r@ == self@,
    {
        FnDecl {
            modifiers: clone_texts(&self.modifiers),
            attributes: clone_texts(&self.attributes),
            name: self.name.clone(),
            has_self: self.has_self,
            parameters: clone_params(&self.parameters),
            return_type: clone_opt_type(&self.return_type),
            body: copy_body(&self.body),
        }
    }
}

pub fn clone_methods(v: &Vec<FnDecl>) -> (r: Vec<FnDecl>)
    ensures
        methods_v(r@) == methods_v(v@),
{
    let mut out: Vec<FnDecl> = Vec::new();
    let mut i: usize = 0;
    while i < v.len()
        invariant
            i <= v.len(),
            out@.len() == i,
            forall|k: int| 0 <= k < i ==> (#[trigger] out@[k])@ == v@[k]@,
        decreases v.len() - i,
    {
        let c = v[i].clone();
        out.push(c);
        i += 1;
    }
    assert(methods_v(out@) =~= methods_v(v@));
    out
}

impl Clone for GenericParam {
    fn clone(&self) -> (r: Self)
        ensures
            r@ == self@,
    {
        GenericParam { bound: self.bound.clone(), name: self.name.clone() }
    }
}

fn copy_generics(v: &Vec<GenericParam>) -> (r: Vec<GenericParam>)
    ensures
        generics_v(r@) == generics_v(v@),
{
    let mut out: Vec<GenericParam> = Vec::new();
    let mut i: usize = 0;
    while i < v.len()
        invariant
            i <= v.len(),
            out@.len() == i,
            forall|k: int| 0 <= k < i ==> (#[trigger] out@[k])@ == v@[k]@,
        decreases v.len() - i,
    {
        let c = v[i].clone();
        out.push(c);
        i += 1;
    }
    assert(generics_v(out@) =~= generics_v(v@));
    out
}

impl Clone for ClassDecl {
    fn clone(&self) -> (r: Self)
        ensures
            r@ == self@,
    {
        ClassDecl {
            is_global: self.is_global,
            is_extern: self.is_extern,
            name: self.name.clone(),
            generic_params: copy_generics(&self.generic_params),
            parents: clone_texts(&self.parents),
            fields: clone_fields(&self.fields),
            methods: clone_methods(&self.methods),
        }
    }
}

impl Clone for EnumVariant {
    fn clone(&self) -> (r: Self)
        ensures
            r@ == self@,
    {
        EnumVariant { name: self.name.clone(), parameters: clone_params(&self.parameters) }
    }
}

impl Clone for ErrorDecl {
    fn clone(&self) -> (r: Self)
        ensures
            r@ == self@,
    {
        ErrorDecl { name: self.name.clone(), parameters: clone_params(&self.parameters) }
    }
}

impl Clone for EnumDecl {
    fn clone(&self) -> (r: Self)
        ensures
            r@ == self@,
    {
        let v = &self.variants;
        let mut out: Vec<EnumVariant> = Vec::new();
        let mut i: usize = 0;
        while i < v.len()
            invariant
                i <= v.len(),
                out@.len() == i,
                forall|k: int| 0 <= k < i ==> (#[trigger] out@[k])@ == v@[k]@,
            decreases v.len() - i,
        {
            let c = v[i].clone();
            out.push(c);
            i += 1;
        }
        assert(variants_v(out@) =~= variants_v(v@));
        EnumDecl { name: self.name.clone(), variants: out }
    }
}

impl Clone for UseDecl {
    fn clone(&self) -> (r: Self)
        ensures
            r.path@ == self.path@,
    {
        UseDecl { path: self.path.clone() }
    }
}

impl Clone for Declaration {
    fn clone(&self) -> (r: Self)
        ensures
            r@ == self@,
    {
        match self {
            Declaration::Use(u) => Declaration::Use(u.clone()),
            Declaration::Class(c) => Declaration::Class(c.clone()),
            Declaration::Enum(e) => Declaration::Enum(e.clone()),
            Declaration::Error(e) => Declaration::Error(e.clone()),
            Declaration::Function(f) => Declaration::Function(f.clone()),
        }
    }
}

impl Program {
    /// The declarations, in the order of the source.
    pub open spec fn view(&self) -> Seq<DeclV> {
        decls_v(self.declarations@)
    }
}

impl Clone for Program {
    fn clone(&self) -> (r: Self)
        ensures
            r@ == self@,
    {
        let v = &self.declarations;
        let mut out: Vec<Declaration> = Vec::new();
        let mut i: usize = 0;
        while i < v.len()
            invariant
                i <= v.len(),
                out@.len() == i,
                forall|k: int| 0 <= k < i ==> (#[trigger] out@[k])@ == v@[k]@,
            decreases v.len() - i,
        {
            let c = v[i].clone();
            out.push(c);
            i += 1;
        }
        assert(decls_v(out@) =~= decls_v(v@));
        Program { declarations: out }
    }
}

/// Where the first field called `name` stands, from position `i` on.
pub open spec fn field_index(s: Seq<FieldV>, name: Seq<char>, i: int) -> Option<int>
    decreases s.len() - i,
{
    if i >= s.len() {
        None
    } else if s[i].name == name {
        Some(i)
    } else {
        field_index(s, name, i + 1)
    }
}

/// The first field called `name`.
pub open spec fn field_named(s: Seq<FieldV>, name: Seq<char>) -> Option<FieldV> {
    match field_index(s, name, 0) {
        Some(i) => Some(s[i]),
        None => None,
    }
}

pub fn find_field(v: &Vec<ClassField>, name: &str) -> (r: Option<usize>)
    ensures
        match r {
            Some(i) => i < v@.len() && field_index(fields_v(v@), name@, 0) == Some(i as int)
                && field_named(fields_v(v@), name@) == Some(v@[i as int]@)
                && v@[i as int].name@ == name@,
            None => field_index(fields_v(v@), name@, 0) is None
                && field_named(fields_v(v@), name@) is None,
        },
{
    let mut i: usize = 0;
    while i < v.len()
        invariant
            i <= v@.len(),
            field_index(fields_v(v@), name@, 0) == field_index(fields_v(v@), name@, i as int),
        decreases v@.len() - i,
    {
        if same(v[i].name.as_str(), name) {
            return Some(i);
        }
        i += 1;
    }
    None
}

/// Where the first method called `name` stands, from position `i` on.
pub open spec fn method_index(s: Seq<FnV>, name: Seq<char>, i: int) -> Option<int>
    decreases s.len() - i,
{
    if i >= s.len() {
        None
    } else if s[i].name == name {
        Some(i)
    } else {
        method_index(s, name, i + 1)
    }
}

/// The first method called `name`.
pub open spec fn method_named(s: Seq<FnV>, name: Seq<char>) -> Option<FnV> {
    match method_index(s, name, 0) {
        Some(i) => Some(s[i]),
        None => None,
    }
}

pub fn find_method(v: &Vec<FnDecl>, name: &str) -> (r: Option<usize>)
    ensures
        match r {
            Some(i) => i < v@.len() && method_index(methods_v(v@), name@, 0) == Some(i as int)
                && method_named(methods_v(v@), name@) == Some(v@[i as int]@)
                && v@[i as int].name@ == name@,
            None => method_index(methods_v(v@), name@, 0) is None
                && method_named(methods_v(v@), name@) is None,
        },
{
    let mut i: usize = 0;
    while i < v.len()
        invariant
            i <= v@.len(),
            method_index(methods_v(v@), name@, 0) == method_index(methods_v(v@), name@, i as int),
        decreases v@.len() - i,
    {
        if same(v[i].name.as_str(), name) {
            return Some(i);
        }
        i += 1;
    }
    None
}

/// Where the first variant called `name` stands, from position `i` on.
pub open spec fn variant_index(s: Seq<VariantV>, name: Seq<char>, i: int) -> Option<int>
    decreases s.len() - i,
{
    if i >= s.len() {
        None
    } else if s[i].name == name {
        Some(i)
    } else {
        variant_index(s, name, i + 1)
    }
}

/// The first variant called `name`.
pub open spec fn variant_named(s: Seq<VariantV>, name: Seq<char>) -> Option<VariantV> {
    match variant_index(s, name, 0) {
        Some(i) => Some(s[i]),
        None => None,
    }
}

pub fn find_variant(v: &Vec<EnumVariant>, name: &str) -> (r: Option<usize>)
    ensures
        match r {
            Some(i) => i < v@.len() && variant_index(variants_v(v@), name@, 0) == Some(i as int)
                && variant_named(variants_v(v@), name@) == Some(v@[i as int]@)
                && v@[i as int].name@ == name@,
            None => variant_index(variants_v(v@), name@, 0) is None
                && variant_named(variants_v(v@), name@) is None,
        },
{
    let mut i: usize = 0;
    while i < v.len()
        invariant
            i <= v@.len(),
            variant_index(variants_v(v@), name@, 0) == variant_index(variants_v(v@), name@, i as int),
        decreases v@.len() - i,
    {
        if same(v[i].name.as_str(), name) {
            return Some(i);
        }
        i += 1;
    }
    None
}

pub broadcast proof fn lemma_types_len(s: Seq<Type>)
    ensures
        #[trigger] types_v(s).len() == s.len(),
{
}

pub broadcast proof fn lemma_types_at(s: Seq<Type>, i: int)
    requires
        0 <= i < s.len(),
    ensures
        #[trigger] types_v(s)[i] == s[i].view(),
{
}

pub broadcast proof fn lemma_exprs_len(s: Seq<Expr>)
    ensures
        #[trigger] exprs_v(s).len() == s.len(),
{
}

pub broadcast proof fn lemma_exprs_at(s: Seq<Expr>, i: int)
    requires
        0 <= i < s.len(),
    ensures
        #[trigger] exprs_v(s)[i] == s[i].view(),
{
}

pub broadcast proof fn lemma_segs_len(s: Seq<FStringSegment>)
    ensures
        #[trigger] segs_v(s).len() == s.len(),
{
}

pub broadcast proof fn lemma_segs_at(s: Seq<FStringSegment>, i: int)
    requires
        0 <= i < s.len(),
    ensures
        #[trigger] segs_v(s)[i] == s[i].view(),
{
}

pub broadcast proof fn lemma_body_len(s: Seq<Spanned<Statement>>)
    ensures
        #[trigger] body_v(s).len() == s.len(),
{
}

pub broadcast proof fn lemma_body_at(s: Seq<Spanned<Statement>>, i: int)
    requires
        0 <= i < s.len(),
    ensures
        #[trigger] body_v(s)[i] == s[i].view(),
{
}

pub broadcast proof fn lemma_arms_len(s: Seq<MatchArm>)
    ensures
        #[trigger] arms_v(s).len() == s.len(),
{
}

pub broadcast proof fn lemma_arms_at(s: Seq<MatchArm>, i: int)
    requires
        0 <= i < s.len(),
    ensures
        #[trigger] arms_v(s)[i] == s[i].view(),
{
}

/// The view of a list has the views of its elements, in order.
pub broadcast group group_views {
    lemma_types_len,
    lemma_types_at,
    lemma_exprs_len,
    lemma_exprs_at,
    lemma_segs_len,
    lemma_segs_at,
    lemma_body_len,
    lemma_body_at,
    lemma_arms_len,
    lemma_arms_at,
}

} // verus!
