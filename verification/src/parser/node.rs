//! What the rules of the grammar have matched: a tree.
use vstd::prelude::*;

verus! {

/// The rules of the grammar.
#[derive(Clone, Copy, PartialEq, Eq, Structural)]
pub enum Rule {
    DeclUnit,
    MemberUnit,
    StatementUnit,
    Declaration,
    UseDecl,
    Path,
    ClassDecl,
    IsGlobal,
    IsExtern,
    GenericParams,
    GenericParam,
    Parents,
    ClassBody,
    ClassField,
    IsConst,
    IsTransient,
    IsMut,
    EnumDecl,
    Variant,
    ErrorDecl,
    FnDecl,
    FnAttrs,
    Modifier,
    ParamList,
    SelfParam,
    Param,
    Ident,
    TypeKeyword,
    TypeIdent,
    GenericType,
    ArrayType,
    Number,
    Block,
    Statement,
    UnsafeBlock,
    AssertStmt,
    ReturnStmt,
    RevertStmt,
    DeleteStmt,
    IfStmt,
    ElseIf,
    NestedIf,
    ForStmt,
    WhileStmt,
    TryStmt,
    MatchStmt,
    MatchArm,
    BitwiseFlip,
    CallStmt,
    VarDecl,
    VarKw,
    Assignment,
    CompoundAssignment,
    CompoundOp,
    ExprStmt,
    Expr,
    BinOp,
    Term,
    UnaryOp,
    Atom,
    StringLiteral,
    FStringLiteral,
    ParenExpr,
    ArrayLiteral,
    Instantiation,
    MadeType,
    FnCall,
    Suffix,
    MethodAccess,
    PropertyAccess,
    IndexAccess,
}

/// What a rule has matched.
pub struct Node {
    pub rule: Rule,
    pub text: String,
    /// Where a statement stands.
    pub line: usize,
    pub col: usize,
    pub kids: Vec<Node>,
}

pub struct NodeV {
    pub rule: Rule,
    pub text: Seq<char>,
    pub line: usize,
    pub col: usize,
    pub kids: Seq<NodeV>,
}

impl Node {
    pub open spec fn view(&self) -> NodeV
        decreases self,
    {
        NodeV {
            rule: self.rule,
            text: self.text@,
            line: self.line,
            col: self.col,
            kids: nodes_v(self.kids@),
        }
    }
}

pub open spec fn nodes_v(s: Seq<Node>) -> Seq<NodeV>
    decreases s,
{
    Seq::new(
        s.len(),
        |i: int|
            if 0 <= i < s.len() {
                s[i].view()
            } else {
                arbitrary()
            },
    )
}

pub broadcast proof fn lemma_nodes_len(s: Seq<Node>)
    ensures
        (#[trigger] nodes_v(s)).len() == s.len(),
{
}

pub broadcast proof fn lemma_nodes_at(s: Seq<Node>, i: int)
    requires
        0 <= i < s.len(),
    ensures
        #[trigger] nodes_v(s)[i] == s[i]@,
{
}

pub broadcast group group_nodes {
    lemma_nodes_len,
    lemma_nodes_at,
}

} // verus!
