//! Yul as trees, and the text of a tree. A text means what the tree means whose text it is.
use crate::text::join_spec;
use vstd::prelude::*;

verus! {

/// The operations of the machine.
pub enum Op {
    Add,
    Sub,
    Mul,
    Div,
    Sdiv,
    Mod,
    Smod,
    Exp,
    Not,
    Lt,
    Gt,
    Slt,
    Sgt,
    Eq,
    Iszero,
    And,
    Or,
    Xor,
    Shl,
    Shr,
    Signextend,
    Mload,
    Mstore,
    Mstore8,
    Mcopy,
    Sload,
    Sstore,
    Tload,
    Tstore,
    Keccak256,
    Calldataload,
    Calldatasize,
    Caller,
    Callvalue,
    Address,
    Timestamp,
    Number,
    Gas,
    Returndatasize,
    Returndatacopy,
    Call,
    Create,
    Create2,
    Revert,
    Return,
    Pop,
    Log(nat),
}

/// How an operation is written.
pub open spec fn op_name(o: Op) -> Seq<char> {
    match o {
        Op::Add => "add"@,
        Op::Sub => "sub"@,
        Op::Mul => "mul"@,
        Op::Div => "div"@,
        Op::Sdiv => "sdiv"@,
        Op::Mod => "mod"@,
        Op::Smod => "smod"@,
        Op::Exp => "exp"@,
        Op::Not => "not"@,
        Op::Lt => "lt"@,
        Op::Gt => "gt"@,
        Op::Slt => "slt"@,
        Op::Sgt => "sgt"@,
        Op::Eq => "eq"@,
        Op::Iszero => "iszero"@,
        Op::And => "and"@,
        Op::Or => "or"@,
        Op::Xor => "xor"@,
        Op::Shl => "shl"@,
        Op::Shr => "shr"@,
        Op::Signextend => "signextend"@,
        Op::Mload => "mload"@,
        Op::Mstore => "mstore"@,
        Op::Mstore8 => "mstore8"@,
        Op::Mcopy => "mcopy"@,
        Op::Sload => "sload"@,
        Op::Sstore => "sstore"@,
        Op::Tload => "tload"@,
        Op::Tstore => "tstore"@,
        Op::Keccak256 => "keccak256"@,
        Op::Calldataload => "calldataload"@,
        Op::Calldatasize => "calldatasize"@,
        Op::Caller => "caller"@,
        Op::Callvalue => "callvalue"@,
        Op::Address => "address"@,
        Op::Timestamp => "timestamp"@,
        Op::Number => "number"@,
        Op::Gas => "gas"@,
        Op::Returndatasize => "returndatasize"@,
        Op::Returndatacopy => "returndatacopy"@,
        Op::Call => "call"@,
        Op::Create => "create"@,
        Op::Create2 => "create2"@,
        Op::Revert => "revert"@,
        Op::Return => "return"@,
        Op::Pop => "pop"@,
        Op::Log(n) => "log"@ + crate::text::dec(n),
    }
}

/// What a call names: an operation, or a function of the program.
pub enum Fun {
    Op(Op),
    Own(Seq<char>),
}

pub open spec fn fun_name(f: Fun) -> Seq<char> {
    match f {
        Fun::Op(o) => op_name(o),
        Fun::Own(n) => n,
    }
}

pub enum YulExpr {
    Num(Seq<char>),
    Name(Seq<char>),
    Call(Fun, Seq<YulExpr>),
}

pub enum YulStmt {
    Let(Seq<char>, YulExpr),
    Put(Seq<char>, YulExpr),
    Do(YulExpr),
    If(YulExpr, Code),
    /// What the subject is compared with stands before each case, and what stands between
    /// the cases; the last code runs where none fits.
    Switch(YulExpr, Seq<(Seq<char>, Seq<char>, Code)>, Option<(Seq<char>, Code)>),
    For(Code, YulExpr, Code, Code),
    Block(Code),
    Leave,
}

/// Statements, each with the white space before it, and the white space behind the last.
pub struct Code {
    pub parts: Seq<(Seq<char>, YulStmt)>,
    pub tail: Seq<char>,
}

pub struct YulFn {
    pub name: Seq<char>,
    pub params: Seq<Seq<char>>,
    pub rets: Seq<Seq<char>>,
    pub body: Code,
}

/// The text of an expression.
pub open spec fn expr_text(e: YulExpr) -> Seq<char>
    decreases e, 0nat,
{
    match e {
        YulExpr::Num(t) => t,
        YulExpr::Name(x) => x,
        YulExpr::Call(f, args) => fun_name(f) + "("@ + args_text(args, args.len()) + ")"@,
    }
}

/// The text of the first `n` arguments.
pub open spec fn args_text(args: Seq<YulExpr>, n: nat) -> Seq<char>
    decreases args, n,
{
    if n == 0 || n > args.len() {
        Seq::empty()
    } else if n == 1 {
        expr_text(args[0])
    } else {
        args_text(args, (n - 1) as nat) + ", "@ + expr_text(args[n - 1])
    }
}

/// The text of a statement.
pub open spec fn stmt_text(s: YulStmt) -> Seq<char>
    decreases s, 0nat,
{
    match s {
        YulStmt::Let(x, e) => "let "@ + x + " := "@ + expr_text(e),
        YulStmt::Put(x, e) => x + " := "@ + expr_text(e),
        YulStmt::Do(e) => expr_text(e),
        YulStmt::If(c, b) => "if "@ + expr_text(c) + " {"@ + parts_text(b.parts, b.parts.len())
            + b.tail + "}"@,
        YulStmt::Switch(e, cases, other) => "switch "@ + expr_text(e) + cases_text(
            cases,
            cases.len(),
        ) + (match other {
            Some((gap, b)) => gap + "default {"@ + parts_text(b.parts, b.parts.len()) + b.tail
                + "}"@,
            None => Seq::empty(),
        }),
        YulStmt::For(init, c, post, body) => "for {"@ + parts_text(init.parts, init.parts.len())
            + init.tail + "} "@ + expr_text(c) + " {"@ + parts_text(post.parts, post.parts.len())
            + post.tail + "} {"@ + parts_text(body.parts, body.parts.len()) + body.tail + "}"@,
        YulStmt::Block(b) => "{"@ + parts_text(b.parts, b.parts.len()) + b.tail + "}"@,
        YulStmt::Leave => "leave"@,
    }
}

/// The text of the first `n` statements.
pub open spec fn parts_text(parts: Seq<(Seq<char>, YulStmt)>, n: nat) -> Seq<char>
    decreases parts, n,
{
    if n == 0 || n > parts.len() {
        Seq::empty()
    } else {
        parts_text(parts, (n - 1) as nat) + parts[n - 1].0 + stmt_text(parts[n - 1].1)
    }
}

/// The text of the first `n` cases of a `switch`.
pub open spec fn cases_text(cases: Seq<(Seq<char>, Seq<char>, Code)>, n: nat) -> Seq<char>
    decreases cases, n,
{
    if n == 0 || n > cases.len() {
        Seq::empty()
    } else {
        let (gap, label, b) = cases[n - 1];
        cases_text(cases, (n - 1) as nat) + gap + "case "@ + label + " {"@ + parts_text(
            b.parts,
            b.parts.len(),
        ) + b.tail + "}"@
    }
}

pub open spec fn code_text(c: Code) -> Seq<char> {
    parts_text(c.parts, c.parts.len()) + c.tail
}

/// The text of a function.
pub open spec fn fn_text(f: YulFn) -> Seq<char> {
    "function "@ + f.name + "("@ + join_spec(f.params, ", "@) + ")"@ + (if f.rets.len() == 0 {
        Seq::empty()
    } else {
        " -> "@ + join_spec(f.rets, ", "@)
    }) + " {"@ + code_text(f.body) + "}"@
}

pub open spec fn num(t: Seq<char>) -> YulExpr {
    YulExpr::Num(t)
}

pub open spec fn var(x: Seq<char>) -> YulExpr {
    YulExpr::Name(x)
}

pub open spec fn op0(o: Op) -> YulExpr {
    YulExpr::Call(Fun::Op(o), Seq::empty())
}

pub open spec fn op1(o: Op, a: YulExpr) -> YulExpr {
    YulExpr::Call(Fun::Op(o), seq![a])
}

pub open spec fn op2(o: Op, a: YulExpr, b: YulExpr) -> YulExpr {
    YulExpr::Call(Fun::Op(o), seq![a, b])
}

pub open spec fn op3(o: Op, a: YulExpr, b: YulExpr, c: YulExpr) -> YulExpr {
    YulExpr::Call(Fun::Op(o), seq![a, b, c])
}

pub open spec fn op4(o: Op, a: YulExpr, b: YulExpr, c: YulExpr, e: YulExpr) -> YulExpr {
    YulExpr::Call(Fun::Op(o), seq![a, b, c, e])
}

pub open spec fn op7(o: Op, a: YulExpr, b: YulExpr, c: YulExpr, e: YulExpr, f: YulExpr, h: YulExpr, i: YulExpr) -> YulExpr {
    YulExpr::Call(Fun::Op(o), seq![a, b, c, e, f, h, i])
}

pub open spec fn own0(f: Seq<char>) -> YulExpr {
    YulExpr::Call(Fun::Own(f), Seq::empty())
}

pub open spec fn own1(f: Seq<char>, a: YulExpr) -> YulExpr {
    YulExpr::Call(Fun::Own(f), seq![a])
}

pub open spec fn own2(f: Seq<char>, a: YulExpr, b: YulExpr) -> YulExpr {
    YulExpr::Call(Fun::Own(f), seq![a, b])
}

pub open spec fn own3(f: Seq<char>, a: YulExpr, b: YulExpr, c: YulExpr) -> YulExpr {
    YulExpr::Call(Fun::Own(f), seq![a, b, c])
}

pub open spec fn own4(f: Seq<char>, a: YulExpr, b: YulExpr, c: YulExpr, e: YulExpr) -> YulExpr {
    YulExpr::Call(Fun::Own(f), seq![a, b, c, e])
}

/// No statement.
pub open spec fn none() -> Code {
    Code { parts: Seq::empty(), tail: Seq::empty() }
}

/// Code with one statement more.
pub open spec fn line(c: Code, gap: Seq<char>, s: YulStmt) -> Code {
    Code { parts: c.parts.push((gap, s)), tail: c.tail }
}

/// Code with white space behind it.
pub open spec fn tail(c: Code, gap: Seq<char>) -> Code {
    Code { parts: c.parts, tail: gap }
}

/// One piece of code behind another.
pub open spec fn both(a: Code, b: Code) -> Code {
    Code {
        parts: if b.parts.len() == 0 {
            a.parts
        } else {
            a.parts + b.parts.update(0, (a.tail + b.parts[0].0, b.parts[0].1))
        },
        tail: if b.parts.len() == 0 {
            a.tail + b.tail
        } else {
            b.tail
        },
    }
}

pub broadcast proof fn lemma_op0_text(o: Op)
    ensures
        #[trigger] expr_text(op0(o)) == op_name(o) + "("@ + ")"@,
{
    assert(args_text(Seq::empty(), 0) =~= Seq::<char>::empty());
    assert(op_name(o) + "("@ + Seq::<char>::empty() =~= op_name(o) + "("@);
}

pub broadcast proof fn lemma_op1_text(o: Op, a: YulExpr)
    ensures
        #[trigger] expr_text(op1(o, a)) == op_name(o) + "("@ + expr_text(a) + ")"@,
{
}

pub broadcast proof fn lemma_op2_text(o: Op, a: YulExpr, b: YulExpr)
    ensures
        #[trigger] expr_text(op2(o, a, b)) == op_name(o) + "("@ + (expr_text(a) + ", "@
            + expr_text(b)) + ")"@,
{
    let args = seq![a, b];
    assert(args_text(args, 1) == expr_text(args[0]));
    assert(args_text(args, 2) == expr_text(a) + ", "@ + expr_text(b));
}

pub broadcast proof fn lemma_op3_text(o: Op, a: YulExpr, b: YulExpr, c: YulExpr)
    ensures
        #[trigger] expr_text(op3(o, a, b, c)) == op_name(o) + "("@ + (expr_text(a) + ", "@
            + expr_text(b) + ", "@ + expr_text(c)) + ")"@,
{
    let args = seq![a, b, c];
    assert(args_text(args, 1) == expr_text(args[0]));
    assert(args_text(args, 2) == expr_text(a) + ", "@ + expr_text(b));
    assert(args_text(args, 3) == expr_text(a) + ", "@ + expr_text(b) + ", "@ + expr_text(c));
}

pub broadcast proof fn lemma_op4_text(o: Op, a: YulExpr, b: YulExpr, c: YulExpr, e: YulExpr)
    ensures
        #[trigger] expr_text(op4(o, a, b, c, e)) == op_name(o) + "("@ + (expr_text(a) + ", "@ + expr_text(b) + ", "@ + expr_text(c) + ", "@ + expr_text(e)) + ")"@,
{
    let args = seq![a, b, c, e];
    assert(args_text(args, 1) == expr_text(args[0]));
    assert(args_text(args, 2) == expr_text(a) + ", "@ + expr_text(b));
    assert(args_text(args, 3) == expr_text(a) + ", "@ + expr_text(b) + ", "@ + expr_text(c));
    assert(args_text(args, 4) == expr_text(a) + ", "@ + expr_text(b) + ", "@ + expr_text(c) + ", "@ + expr_text(e));
}

pub broadcast proof fn lemma_op7_text(o: Op, a: YulExpr, b: YulExpr, c: YulExpr, e: YulExpr, f: YulExpr, h: YulExpr, i: YulExpr)
    ensures
        #[trigger] expr_text(op7(o, a, b, c, e, f, h, i)) == op_name(o) + "("@ + (expr_text(a) + ", "@ + expr_text(b) + ", "@ + expr_text(c) + ", "@ + expr_text(e) + ", "@ + expr_text(f) + ", "@ + expr_text(h) + ", "@ + expr_text(i)) + ")"@,
{
    let args = seq![a, b, c, e, f, h, i];
    assert(args_text(args, 1) == expr_text(args[0]));
    assert(args_text(args, 2) == expr_text(a) + ", "@ + expr_text(b));
    assert(args_text(args, 3) == expr_text(a) + ", "@ + expr_text(b) + ", "@ + expr_text(c));
    assert(args_text(args, 4) == expr_text(a) + ", "@ + expr_text(b) + ", "@ + expr_text(c) + ", "@ + expr_text(e));
    assert(args_text(args, 5) == expr_text(a) + ", "@ + expr_text(b) + ", "@ + expr_text(c) + ", "@ + expr_text(e) + ", "@ + expr_text(f));
    assert(args_text(args, 6) == expr_text(a) + ", "@ + expr_text(b) + ", "@ + expr_text(c) + ", "@ + expr_text(e) + ", "@ + expr_text(f) + ", "@ + expr_text(h));
    assert(args_text(args, 7) == expr_text(a) + ", "@ + expr_text(b) + ", "@ + expr_text(c) + ", "@ + expr_text(e) + ", "@ + expr_text(f) + ", "@ + expr_text(h) + ", "@ + expr_text(i));
}

pub broadcast proof fn lemma_own0_text(f: Seq<char>)
    ensures
        #[trigger] expr_text(own0(f)) == f + "("@ + ")"@,
{
    assert(f + "("@ + Seq::<char>::empty() =~= f + "("@);
}

pub broadcast proof fn lemma_own1_text(f: Seq<char>, a: YulExpr)
    ensures
        #[trigger] expr_text(own1(f, a)) == f + "("@ + (expr_text(a)) + ")"@,
{
    let args = seq![a];
    assert(args_text(args, 1) == expr_text(args[0]));
}

pub broadcast proof fn lemma_own2_text(f: Seq<char>, a: YulExpr, b: YulExpr)
    ensures
        #[trigger] expr_text(own2(f, a, b)) == f + "("@ + (expr_text(a) + ", "@ + expr_text(b)) + ")"@,
{
    let args = seq![a, b];
    assert(args_text(args, 1) == expr_text(args[0]));
    assert(args_text(args, 2) == expr_text(a) + ", "@ + expr_text(b));
}

pub broadcast proof fn lemma_own3_text(f: Seq<char>, a: YulExpr, b: YulExpr, c: YulExpr)
    ensures
        #[trigger] expr_text(own3(f, a, b, c)) == f + "("@ + (expr_text(a) + ", "@ + expr_text(b) + ", "@ + expr_text(c)) + ")"@,
{
    let args = seq![a, b, c];
    assert(args_text(args, 1) == expr_text(args[0]));
    assert(args_text(args, 2) == expr_text(a) + ", "@ + expr_text(b));
    assert(args_text(args, 3) == expr_text(a) + ", "@ + expr_text(b) + ", "@ + expr_text(c));
}

pub broadcast proof fn lemma_own4_text(f: Seq<char>, a: YulExpr, b: YulExpr, c: YulExpr, e: YulExpr)
    ensures
        #[trigger] expr_text(own4(f, a, b, c, e)) == f + "("@ + (expr_text(a) + ", "@ + expr_text(b) + ", "@ + expr_text(c) + ", "@ + expr_text(e)) + ")"@,
{
    let args = seq![a, b, c, e];
    assert(args_text(args, 1) == expr_text(args[0]));
    assert(args_text(args, 2) == expr_text(a) + ", "@ + expr_text(b));
    assert(args_text(args, 3) == expr_text(a) + ", "@ + expr_text(b) + ", "@ + expr_text(c));
    assert(args_text(args, 4) == expr_text(a) + ", "@ + expr_text(b) + ", "@ + expr_text(c) + ", "@ + expr_text(e));
}

proof fn lemma_parts_push(parts: Seq<(Seq<char>, YulStmt)>, x: (Seq<char>, YulStmt), n: nat)
    requires
        n <= parts.len(),
    ensures
        parts_text(parts.push(x), n) == parts_text(parts, n),
    decreases n,
{
    if n > 0 {
        lemma_parts_push(parts, x, (n - 1) as nat);
        assert(parts.push(x)[n - 1] == parts[n - 1]);
    }
}

/// The text of code with one statement more.
pub broadcast proof fn lemma_line_text(c: Code, gap: Seq<char>, s: YulStmt)
    ensures
        #[trigger] parts_text(line(c, gap, s).parts, line(c, gap, s).parts.len()) == parts_text(
            c.parts,
            c.parts.len(),
        ) + gap + stmt_text(s),
{
    lemma_parts_push(c.parts, (gap, s), c.parts.len());
}

pub broadcast proof fn lemma_none_text()
    ensures
        #[trigger] parts_text(none().parts, none().parts.len()) == Seq::<char>::empty(),
{
}

proof fn lemma_parts_both(
    a: Seq<(Seq<char>, YulStmt)>,
    b: Seq<(Seq<char>, YulStmt)>,
    n: nat,
)
    requires
        n <= b.len(),
    ensures
        parts_text(a + b, a.len() + n) == parts_text(a, a.len()) + parts_text(b, n),
    decreases n,
{
    if n == 0 {
        lemma_parts_prefix(a, b, a.len());
        assert(parts_text(a, a.len()) + parts_text(b, 0) =~= parts_text(a, a.len()));
    } else {
        lemma_parts_both(a, b, (n - 1) as nat);
        assert((a + b)[a.len() + n - 1] == b[n - 1]);
        assert(parts_text(a + b, a.len() + n) =~= parts_text(a, a.len()) + parts_text(b, n));
    }
}

proof fn lemma_parts_prefix(
    a: Seq<(Seq<char>, YulStmt)>,
    b: Seq<(Seq<char>, YulStmt)>,
    n: nat,
)
    requires
        n <= a.len(),
    ensures
        parts_text(a + b, n) == parts_text(a, n),
    decreases n,
{
    if n > 0 {
        lemma_parts_prefix(a, b, (n - 1) as nat);
        assert((a + b)[n - 1] == a[n - 1]);
    }
}

proof fn lemma_lead(b: Seq<(Seq<char>, YulStmt)>, gap: Seq<char>, n: nat)
    requires
        0 < n <= b.len(),
    ensures
        parts_text(b.update(0, (gap + b[0].0, b[0].1)), n) == gap + parts_text(b, n),
    decreases n,
{
    let u = b.update(0, (gap + b[0].0, b[0].1));
    if n == 1 {
        reveal_with_fuel(parts_text, 2);
        assert(parts_text(u, 1) =~= gap + parts_text(b, 1));
    } else {
        lemma_lead(b, gap, (n - 1) as nat);
        assert(u[n - 1] == b[n - 1]);
        assert(parts_text(u, n) =~= gap + parts_text(b, n));
    }
}

/// The text of two pieces of code is one behind the other.
pub proof fn law_code_joins(a: Code, b: Code)
    ensures
        code_text(both(a, b)) == code_text(a) + code_text(b),
{
    if b.parts.len() == 0 {
        assert(code_text(both(a, b)) =~= code_text(a) + code_text(b));
    } else {
        let u = b.parts.update(0, (a.tail + b.parts[0].0, b.parts[0].1));
        lemma_parts_both(a.parts, u, u.len());
        lemma_lead(b.parts, a.tail, b.parts.len());
        assert(code_text(both(a, b)) =~= code_text(a) + code_text(b));
    }
}

pub broadcast group group_texts {
    lemma_op0_text,
    lemma_op1_text,
    lemma_op2_text,
    lemma_op3_text,
    lemma_op4_text,
    lemma_op7_text,
    lemma_own0_text,
    lemma_own1_text,
    lemma_own2_text,
    lemma_own3_text,
    lemma_own4_text,
    lemma_line_text,
    lemma_none_text,
}

} // verus!
