//! What Yul does: a machine with variables, memory and storage, and how code changes it.
use crate::codegen::word::{
    bit_and, bit_or, bit_xor, bytes_of, from_bytes, power, quotient, remainder, signed, spread, top,
    truth, two, word_bytes, wrap,
};
use crate::codegen::yul::keccak256;
use crate::codegen::yul_tree::{
    both, line, none, op0, op1, op2, op3, op4, op7, own0, own1, own2, own3, own4, tail, Code, Fun, Op, YulExpr, YulFn, YulStmt,
};
use crate::text::begins;
use vstd::prelude::*;

verus! {

/// A call of another contract.
pub struct Sent {
    pub to: int,
    pub value: int,
    pub data: Seq<u8>,
}

/// What came of such a call: whether it succeeded, what it answered, and the storage as it
/// is afterwards.
pub struct Reply {
    pub ok: bool,
    pub data: Seq<u8>,
    /// The address of the contract that was made.
    pub made: int,
    pub store: Map<int, int>,
    pub temp: Map<int, int>,
}

/// What has been logged.
pub struct Logged {
    pub topics: Seq<int>,
    pub data: Seq<u8>,
}

pub struct Machine {
    pub vars: Map<Seq<char>, int>,
    pub mem: Map<int, u8>,
    pub store: Map<int, int>,
    pub temp: Map<int, int>,
    /// What the contract was called with.
    pub data: Seq<u8>,
    /// What the last call answered.
    pub answer: Seq<u8>,
    /// The calls that were made, and what comes of each call in turn.
    pub sent: Seq<Sent>,
    pub replies: Map<nat, Reply>,
    pub logs: Seq<Logged>,
    /// What else the machine tells.
    pub told: Map<Op, int>,
}

/// How code ends.
pub enum End {
    Next,
    Leave,
    Revert(Seq<u8>),
    Return(Seq<u8>),
    /// Out of steps, or without meaning.
    Lost,
}

pub struct Out {
    pub m: Machine,
    pub v: int,
    pub end: End,
}

pub struct Outs {
    pub m: Machine,
    pub vs: Seq<int>,
    pub end: End,
}

pub open spec fn digit(c: char) -> int {
    if '0' <= c && c <= '9' {
        c as int - '0' as int
    } else {
        c as int - 'a' as int + 10
    }
}

/// The number that digits spell.
pub open spec fn spelled(s: Seq<char>, base: int) -> int
    decreases s.len(),
{
    if s.len() == 0 {
        0
    } else {
        base * spelled(s.drop_last(), base) + digit(s.last())
    }
}

/// The value of a literal.
pub open spec fn number(t: Seq<char>) -> int {
    if begins(t, "0x"@) {
        spelled(t.subrange(2, t.len() as int), 16)
    } else {
        spelled(t, 10)
    }
}

pub open spec fn byte_at(mem: Map<int, u8>, i: int) -> u8 {
    if mem.contains_key(i) {
        mem[i]
    } else {
        0
    }
}

/// A stretch of memory.
pub open spec fn bytes_at(mem: Map<int, u8>, at: int, n: int) -> Seq<u8> {
    Seq::new(n as nat, |i: int| byte_at(mem, at + i))
}

/// Memory with bytes written into it.
pub open spec fn put_bytes(mem: Map<int, u8>, at: int, s: Seq<u8>) -> Map<int, u8> {
    Map::new(
        |i: int| mem.contains_key(i) || at <= i < at + s.len(),
        |i: int|
            if at <= i < at + s.len() {
                s[i - at]
            } else {
                mem[i]
            },
    )
}

pub open spec fn read_slot(store: Map<int, int>, k: int) -> int {
    if store.contains_key(k) {
        store[k]
    } else {
        0
    }
}

/// A stretch of bytes; what is not there reads as zero.
pub open spec fn cut_bytes(s: Seq<u8>, at: int, n: int) -> Seq<u8> {
    Seq::new(
        n as nat,
        |i: int|
            if 0 <= at + i < s.len() {
                s[at + i]
            } else {
                0
            },
    )
}

pub open spec fn give(m: Machine, v: int) -> Out {
    Out { m, v, end: End::Next }
}

pub open spec fn stop(m: Machine, end: End) -> Out {
    Out { m, v: 0, end }
}

/// A call of another contract.
pub open spec fn send(m: Machine, s: Sent) -> Machine {
    let r = m.replies[m.sent.len()];
    Machine {
        sent: m.sent.push(s),
        answer: r.data,
        store: if r.ok {
            r.store
        } else {
            m.store
        },
        temp: if r.ok {
            r.temp
        } else {
            m.temp
        },
        ..m
    }
}

/// What an operation does.
#[verifier::opaque]
pub open spec fn apply(m: Machine, o: Op, vs: Seq<int>) -> Out {
    match o {
        Op::Add => give(m, wrap(vs[0] + vs[1])),
        Op::Sub => give(m, wrap(vs[0] - vs[1])),
        Op::Mul => give(m, wrap(vs[0] * vs[1])),
        Op::Div => give(
            m,
            if vs[1] == 0 {
                0
            } else {
                vs[0] / vs[1]
            },
        ),
        Op::Sdiv => give(
            m,
            if vs[1] == 0 {
                0
            } else {
                wrap(quotient(signed(vs[0]), signed(vs[1])))
            },
        ),
        Op::Mod => give(
            m,
            if vs[1] == 0 {
                0
            } else {
                vs[0] % vs[1]
            },
        ),
        Op::Smod => give(
            m,
            if vs[1] == 0 {
                0
            } else {
                wrap(remainder(signed(vs[0]), signed(vs[1])))
            },
        ),
        Op::Exp => give(m, wrap(power(vs[0], vs[1] as nat))),
        Op::Not => give(m, top() - 1 - vs[0]),
        Op::Lt => give(m, truth(vs[0] < vs[1])),
        Op::Gt => give(m, truth(vs[0] > vs[1])),
        Op::Slt => give(m, truth(signed(vs[0]) < signed(vs[1]))),
        Op::Sgt => give(m, truth(signed(vs[0]) > signed(vs[1]))),
        Op::Eq => give(m, truth(vs[0] == vs[1])),
        Op::Iszero => give(m, truth(vs[0] == 0)),
        Op::And => give(m, bit_and(vs[0], vs[1])),
        Op::Or => give(m, bit_or(vs[0], vs[1])),
        Op::Xor => give(m, bit_xor(vs[0], vs[1])),
        Op::Shl => give(
            m,
            if vs[0] >= 256 {
                0
            } else {
                wrap(vs[1] * two(vs[0] as nat))
            },
        ),
        Op::Shr => give(
            m,
            if vs[0] >= 256 {
                0
            } else {
                vs[1] / two(vs[0] as nat)
            },
        ),
        Op::Signextend => give(m, spread(vs[0], vs[1])),
        Op::Mload => give(m, from_bytes(bytes_at(m.mem, vs[0], 32))),
        Op::Mstore => give(
            Machine { mem: put_bytes(m.mem, vs[0], word_bytes(vs[1])), ..m },
            0,
        ),
        Op::Mstore8 => give(
            Machine { mem: put_bytes(m.mem, vs[0], bytes_of(vs[1], 1)), ..m },
            0,
        ),
        Op::Mcopy => give(
            Machine { mem: put_bytes(m.mem, vs[0], bytes_at(m.mem, vs[1], vs[2])), ..m },
            0,
        ),
        Op::Sload => give(m, read_slot(m.store, vs[0])),
        Op::Sstore => give(Machine { store: m.store.insert(vs[0], vs[1]), ..m }, 0),
        Op::Tload => give(m, read_slot(m.temp, vs[0])),
        Op::Tstore => give(Machine { temp: m.temp.insert(vs[0], vs[1]), ..m }, 0),
        Op::Keccak256 => give(m, from_bytes(keccak256(bytes_at(m.mem, vs[0], vs[1])))),
        Op::Calldataload => give(m, from_bytes(cut_bytes(m.data, vs[0], 32))),
        Op::Calldatasize => give(m, m.data.len() as int),
        Op::Returndatasize => give(m, m.answer.len() as int),
        Op::Returndatacopy => if vs[1] + vs[2] <= m.answer.len() {
            give(
                Machine { mem: put_bytes(m.mem, vs[0], cut_bytes(m.answer, vs[1], vs[2])), ..m },
                0,
            )
        } else {
            stop(m, End::Revert(Seq::empty()))
        },
        Op::Call => {
            let r = m.replies[m.sent.len()];
            let n = send(m, Sent { to: vs[1], value: vs[2], data: bytes_at(m.mem, vs[3], vs[4]) });
            let room = if vs[6] < r.data.len() {
                vs[6]
            } else {
                r.data.len() as int
            };
            give(
                Machine { mem: put_bytes(n.mem, vs[5], cut_bytes(r.data, 0, room)), ..n },
                truth(r.ok),
            )
        },
        Op::Create => {
            let r = m.replies[m.sent.len()];
            let n = send(m, Sent { to: 0, value: vs[0], data: bytes_at(m.mem, vs[1], vs[2]) });
            give(
                n,
                if r.ok {
                    r.made
                } else {
                    0
                },
            )
        },
        Op::Revert => stop(m, End::Revert(bytes_at(m.mem, vs[0], vs[1]))),
        Op::Return => stop(m, End::Return(bytes_at(m.mem, vs[0], vs[1]))),
        Op::Pop => give(m, 0),
        Op::Log(n) => give(
            Machine {
                logs: m.logs.push(
                    Logged {
                        topics: vs.subrange(2, vs.len() as int),
                        data: bytes_at(m.mem, vs[0], vs[1]),
                    },
                ),
                ..m
            },
            0,
        ),
        _ => if m.told.contains_key(o) {
            give(m, m.told[o])
        } else {
            stop(m, End::Lost)
        },
    }
}

/// Names given to values, the first `n`.
pub open spec fn bind(
    names: Seq<Seq<char>>,
    vs: Seq<int>,
    n: nat,
    m: Map<Seq<char>, int>,
) -> Map<Seq<char>, int>
    decreases n,
{
    if n == 0 || n > names.len() || n > vs.len() {
        m
    } else {
        bind(names, vs, (n - 1) as nat, m).insert(names[n - 1], vs[n - 1])
    }
}

/// The variables that a function starts with.
pub open spec fn entry_vars(f: YulFn, vs: Seq<int>) -> Map<Seq<char>, int> {
    bind(
        f.params,
        vs,
        f.params.len(),
        bind(f.rets, Seq::new(f.rets.len(), |i: int| 0int), f.rets.len(), Map::empty()),
    )
}

/// The machine behind a block: what the block declared is gone.
pub open spec fn closed(before: Machine, after: Machine) -> Machine {
    Machine {
        vars: Map::new(
            |x: Seq<char>| before.vars.contains_key(x),
            |x: Seq<char>| after.vars[x],
        ),
        ..after
    }
}

/// The value of an expression, within `d` further calls and turns of loops. Arguments are
/// evaluated from the last to the first.
#[verifier::opaque]
pub open spec fn eval(p: Map<Seq<char>, YulFn>, m: Machine, e: YulExpr, d: nat) -> Out
    decreases d, 0nat, e, 0nat,
{
    match e {
        YulExpr::Num(t) => give(m, number(t)),
        YulExpr::Name(x) => if m.vars.contains_key(x) {
            give(m, m.vars[x])
        } else {
            stop(m, End::Lost)
        },
        YulExpr::Call(f, args) => {
            let o = eval_from(p, m, args, 0, d);
            if o.end != End::Next {
                stop(o.m, o.end)
            } else {
                match f {
                    Fun::Op(op) => apply(o.m, op, o.vs),
                    Fun::Own(name) => if d == 0 || !p.contains_key(name) {
                        stop(o.m, End::Lost)
                    } else {
                        let f = p[name];
                        let (after, end) = run_first(
                            p,
                            Machine { vars: entry_vars(f, o.vs), ..o.m },
                            f.body.parts,
                            f.body.parts.len(),
                            (d - 1) as nat,
                        );
                        let back = Machine { vars: o.m.vars, ..after };
                        match end {
                            End::Next => give(back, result_of(f, after)),
                            End::Leave => give(back, result_of(f, after)),
                            _ => stop(back, end),
                        }
                    },
                }
            }
        },
    }
}

/// What a function gives back.
pub open spec fn result_of(f: YulFn, m: Machine) -> int {
    if f.rets.len() == 1 {
        m.vars[f.rets[0]]
    } else {
        0
    }
}

/// The values of the arguments from `i` on.
#[verifier::opaque]
pub open spec fn eval_from(
    p: Map<Seq<char>, YulFn>,
    m: Machine,
    args: Seq<YulExpr>,
    i: nat,
    d: nat,
) -> Outs
    decreases d, 0nat, args, args.len() - i,
{
    if i >= args.len() {
        Outs { m, vs: Seq::empty(), end: End::Next }
    } else {
        let rest = eval_from(p, m, args, i + 1, d);
        if rest.end != End::Next {
            rest
        } else {
            let o = eval(p, rest.m, args[i as int], d);
            Outs { m: o.m, vs: seq![o.v] + rest.vs, end: o.end }
        }
    }
}

/// What a statement does.
#[verifier::opaque]
pub open spec fn exec(p: Map<Seq<char>, YulFn>, m: Machine, s: YulStmt, d: nat) -> (Machine, End)
    decreases d, 1nat, s, 2nat,
{
    match s {
        YulStmt::Let(x, e) => {
            let o = eval(p, m, e, d);
            if o.end != End::Next {
                (o.m, o.end)
            } else {
                (Machine { vars: o.m.vars.insert(x, o.v), ..o.m }, End::Next)
            }
        },
        YulStmt::Put(x, e) => {
            let o = eval(p, m, e, d);
            if o.end != End::Next {
                (o.m, o.end)
            } else {
                (Machine { vars: o.m.vars.insert(x, o.v), ..o.m }, End::Next)
            }
        },
        YulStmt::Do(e) => {
            let o = eval(p, m, e, d);
            (o.m, o.end)
        },
        YulStmt::If(c, b) => {
            let o = eval(p, m, c, d);
            if o.end != End::Next {
                (o.m, o.end)
            } else if o.v == 0 {
                (o.m, End::Next)
            } else {
                let (after, end) = run_first(p, o.m, b.parts, b.parts.len(), d);
                (closed(o.m, after), end)
            }
        },
        YulStmt::Switch(e, cases, other) => {
            let o = eval(p, m, e, d);
            if o.end != End::Next {
                (o.m, o.end)
            } else {
                pick(p, o.m, o.v, s, 0, d)
            }
        },
        YulStmt::For(init, _, _, _) => {
            let (n, end) = run_first(p, m, init.parts, init.parts.len(), d);
            if end != End::Next {
                (closed(m, n), end)
            } else {
                let (after, end) = turns(p, n, s, d);
                (closed(m, after), end)
            }
        },
        YulStmt::Block(b) => {
            let (after, end) = run_first(p, m, b.parts, b.parts.len(), d);
            (closed(m, after), end)
        },
        YulStmt::Leave => (m, End::Leave),
    }
}

/// The case of a `switch`, from the `i`th on, that a value picks.
#[verifier::opaque]
pub open spec fn pick(
    p: Map<Seq<char>, YulFn>,
    m: Machine,
    v: int,
    s: YulStmt,
    i: nat,
    d: nat,
) -> (Machine, End)
    decreases d, 1nat, s, 1nat, s->Switch_1.len() - i,
{
    match s {
        YulStmt::Switch(_, cases, other) => if i < cases.len() {
            let (_, label, b) = cases[i as int];
            if number(label) == v {
                let (after, end) = run_first(p, m, b.parts, b.parts.len(), d);
                (closed(m, after), end)
            } else {
                pick(p, m, v, s, i + 1, d)
            }
        } else {
            match other {
                Some((_, b)) => {
                    let (after, end) = run_first(p, m, b.parts, b.parts.len(), d);
                    (closed(m, after), end)
                },
                None => (m, End::Next),
            }
        },
        _ => (m, End::Lost),
    }
}

/// The turns of a loop.
#[verifier::opaque]
pub open spec fn turns(p: Map<Seq<char>, YulFn>, m: Machine, s: YulStmt, d: nat) -> (Machine, End)
    decreases d, 1nat, s, 1nat,
{
    match s {
        YulStmt::For(_, c, post, body) => {
            let o = eval(p, m, c, d);
            if o.end != End::Next {
                (o.m, o.end)
            } else if o.v == 0 {
                (o.m, End::Next)
            } else if d == 0 {
                (o.m, End::Lost)
            } else {
                let (n, end) = run_first(p, o.m, body.parts, body.parts.len(), d);
                let n = closed(o.m, n);
                if end != End::Next {
                    (n, end)
                } else {
                    let (k, end) = run_first(p, n, post.parts, post.parts.len(), d);
                    let k = closed(n, k);
                    if end != End::Next {
                        (k, end)
                    } else {
                        turns(p, k, s, (d - 1) as nat)
                    }
                }
            }
        },
        _ => (m, End::Lost),
    }
}

/// What the first `n` statements do.
#[verifier::opaque]
pub open spec fn run_first(
    p: Map<Seq<char>, YulFn>,
    m: Machine,
    parts: Seq<(Seq<char>, YulStmt)>,
    n: nat,
    d: nat,
) -> (Machine, End)
    decreases d, 1nat, parts, n,
{
    if n == 0 || n > parts.len() {
        (m, End::Next)
    } else {
        let (k, end) = run_first(p, m, parts, (n - 1) as nat, d);
        if end != End::Next {
            (k, end)
        } else {
            exec(p, k, parts[n - 1].1, d)
        }
    }
}

/// What code does.
pub open spec fn run(p: Map<Seq<char>, YulFn>, m: Machine, c: Code, d: nat) -> (Machine, End) {
    run_first(p, m, c.parts, c.parts.len(), d)
}

proof fn lemma_bound(names: Seq<Seq<char>>, vs: Seq<int>, n: nat, m: Map<Seq<char>, int>)
    requires
        n <= names.len(),
        n <= vs.len(),
        names.no_duplicates(),
    ensures
        forall|i: int|
            0 <= i < n ==> bind(names, vs, n, m).contains_key(#[trigger] names[i]) && bind(
                names,
                vs,
                n,
                m,
            )[names[i]] == vs[i],
        forall|x: Seq<char>|
            !names.contains(x) && m.contains_key(x) ==> #[trigger] bind(names, vs, n, m).contains_key(
                x,
            ) && bind(names, vs, n, m)[x] == m[x],
    decreases n,
{
    if n > 0 {
        lemma_bound(names, vs, (n - 1) as nat, m);
        assert forall|i: int| 0 <= i < n implies bind(names, vs, n, m).contains_key(
            #[trigger] names[i],
        ) && bind(names, vs, n, m)[names[i]] == vs[i] by {
            if i < n - 1 {
                assert(names[i] != names[n - 1]);
            }
        }
        assert forall|x: Seq<char>| !names.contains(x) && m.contains_key(x) implies #[trigger] bind(
            names,
            vs,
            n,
            m,
        ).contains_key(x) && bind(names, vs, n, m)[x] == m[x] by {
            assert(bind(names, vs, (n - 1) as nat, m).contains_key(x));
            assert(names.contains(names[n - 1]));
        }
    }
}

/// A function starts with its parameters bound to the arguments and its results at zero.
pub proof fn lemma_entry(f: YulFn, vs: Seq<int>)
    requires
        f.params.no_duplicates(),
        f.rets.no_duplicates(),
        f.params.len() == vs.len(),
    ensures
        forall|i: int|
            0 <= i < vs.len() ==> entry_vars(f, vs).contains_key(#[trigger] f.params[i])
                && entry_vars(f, vs)[f.params[i]] == vs[i],
        forall|i: int|
            0 <= i < f.rets.len() && !f.params.contains(f.rets[i]) ==> entry_vars(
                f,
                vs,
            ).contains_key(#[trigger] f.rets[i]) && entry_vars(f, vs)[f.rets[i]] == 0,
{
    let zeros = Seq::new(f.rets.len(), |i: int| 0int);
    lemma_bound(f.rets, zeros, f.rets.len(), Map::empty());
    let base = bind(f.rets, zeros, f.rets.len(), Map::empty());
    lemma_bound(f.params, vs, f.params.len(), base);
    assert forall|i: int| 0 <= i < f.rets.len() && !f.params.contains(f.rets[i]) implies entry_vars(
        f,
        vs,
    ).contains_key(#[trigger] f.rets[i]) && entry_vars(f, vs)[f.rets[i]] == 0 by {
        assert(base.contains_key(f.rets[i]) && base[f.rets[i]] == zeros[i]);
        assert(bind(f.params, vs, f.params.len(), base).contains_key(f.rets[i]));
    }
}

/// The call of a function of the program with given arguments.
pub open spec fn called(
    p: Map<Seq<char>, YulFn>,
    m: Machine,
    name: Seq<char>,
    vs: Seq<int>,
    d: nat,
) -> Out {
    if d == 0 || !p.contains_key(name) {
        stop(m, End::Lost)
    } else {
        let f = p[name];
        let (after, end) = run(p, Machine { vars: entry_vars(f, vs), ..m }, f.body, (d - 1) as nat);
        let back = Machine { vars: m.vars, ..after };
        match end {
            End::Next => give(back, result_of(f, after)),
            End::Leave => give(back, result_of(f, after)),
            _ => stop(back, end),
        }
    }
}

pub broadcast proof fn lemma_num(p: Map<Seq<char>, YulFn>, m: Machine, t: Seq<char>, d: nat)
    ensures
        #[trigger] eval(p, m, YulExpr::Num(t), d) == give(m, number(t)),
{
    reveal(eval);
    reveal(exec);
    reveal(run_first);
}

pub broadcast proof fn lemma_var(p: Map<Seq<char>, YulFn>, m: Machine, x: Seq<char>, d: nat)
    ensures
        m.vars.contains_key(x) ==> #[trigger] eval(p, m, YulExpr::Name(x), d) == give(m, m.vars[x]),
{
    reveal(eval);
    reveal(exec);
    reveal(run_first);
}

pub broadcast proof fn lemma_op0(p: Map<Seq<char>, YulFn>, m: Machine, o: Op, d: nat)
    ensures
        #[trigger] eval(p, m, op0(o), d) == apply(m, o, Seq::empty()),
{
    reveal_with_fuel(eval_from, 2);
    reveal(eval);
}

pub broadcast proof fn lemma_op1(
    p: Map<Seq<char>, YulFn>,
    m: Machine,
    o: Op,
    a: YulExpr,
    d: nat,
)
    ensures
        #[trigger] eval(p, m, op1(o, a), d) == ({
            let va = eval(p, m, a, d);
            if va.end != End::Next {
                stop(va.m, va.end)
            } else {
                apply(va.m, o, seq![va.v])
            }
        }),
{
    let args = seq![a];
    reveal_with_fuel(eval_from, 3);
    reveal(eval);
    assert(eval_from(p, m, args, 1, d).vs =~= Seq::<int>::empty());
    let va = eval(p, m, a, d);
    assert(va.end == End::Next ==> eval_from(p, m, args, 0, d).vs =~= seq![va.v]);
}

pub broadcast proof fn lemma_op2(
    p: Map<Seq<char>, YulFn>,
    m: Machine,
    o: Op,
    a: YulExpr,
    b: YulExpr,
    d: nat,
)
    ensures
        #[trigger] eval(p, m, op2(o, a, b), d) == ({
            let vb = eval(p, m, b, d);
            if vb.end != End::Next {
                stop(vb.m, vb.end)
            } else {
                let va = eval(p, vb.m, a, d);
                if va.end != End::Next {
                    stop(va.m, va.end)
                } else {
                    apply(va.m, o, seq![va.v, vb.v])
                }
            }
        }),
{
    let args = seq![a, b];
    reveal_with_fuel(eval_from, 4);
    reveal(eval);
    assert(eval_from(p, m, args, 2, d).vs =~= Seq::<int>::empty());
    let vb = eval(p, m, b, d);
    assert(vb.end == End::Next ==> eval_from(p, m, args, 1, d).vs =~= seq![vb.v]);
    let va = eval(p, vb.m, a, d);
    assert(vb.end == End::Next && va.end == End::Next ==> eval_from(p, m, args, 0, d).vs =~= seq![va.v, vb.v]);
}

pub broadcast proof fn lemma_op3(
    p: Map<Seq<char>, YulFn>,
    m: Machine,
    o: Op,
    a: YulExpr,
    b: YulExpr,
    c: YulExpr,
    d: nat,
)
    ensures
        #[trigger] eval(p, m, op3(o, a, b, c), d) == ({
            let vc = eval(p, m, c, d);
            if vc.end != End::Next {
                stop(vc.m, vc.end)
            } else {
                let vb = eval(p, vc.m, b, d);
                if vb.end != End::Next {
                    stop(vb.m, vb.end)
                } else {
                    let va = eval(p, vb.m, a, d);
                    if va.end != End::Next {
                        stop(va.m, va.end)
                    } else {
                        apply(va.m, o, seq![va.v, vb.v, vc.v])
                    }
                }
            }
        }),
{
    let args = seq![a, b, c];
    reveal_with_fuel(eval_from, 5);
    reveal(eval);
    assert(eval_from(p, m, args, 3, d).vs =~= Seq::<int>::empty());
    let vc = eval(p, m, c, d);
    assert(vc.end == End::Next ==> eval_from(p, m, args, 2, d).vs =~= seq![vc.v]);
    let vb = eval(p, vc.m, b, d);
    assert(vc.end == End::Next && vb.end == End::Next ==> eval_from(p, m, args, 1, d).vs =~= seq![vb.v, vc.v]);
    let va = eval(p, vb.m, a, d);
    assert(vc.end == End::Next && vb.end == End::Next && va.end == End::Next ==> eval_from(p, m, args, 0, d).vs =~= seq![va.v, vb.v, vc.v]);
}

proof fn lemma_from(
    p: Map<Seq<char>, YulFn>,
    m: Machine,
    args: Seq<YulExpr>,
    i: nat,
    d: nat,
)
    ensures
        i >= args.len() ==> eval_from(p, m, args, i, d) == (Outs {
            m,
            vs: Seq::empty(),
            end: End::Next,
        }),
        i < args.len() && eval_from(p, m, args, i + 1, d).end == End::Next ==> eval_from(
            p,
            m,
            args,
            i,
            d,
        ) == ({
            let rest = eval_from(p, m, args, i + 1, d);
            let o = eval(p, rest.m, args[i as int], d);
            Outs { m: o.m, vs: seq![o.v] + rest.vs, end: o.end }
        }),
{
    reveal(eval_from);
    reveal(eval);
}

pub broadcast proof fn lemma_op4(
    p: Map<Seq<char>, YulFn>,
    m: Machine,
    o: Op,
    a: YulExpr,
    b: YulExpr,
    c: YulExpr,
    e: YulExpr,
    d: nat,
)
    ensures
        ({
            let out = #[trigger] eval(p, m, op4(o, a, b, c, e), d);
            let ve = eval(p, m, e, d);
            let vc = eval(p, ve.m, c, d);
            let vb = eval(p, vc.m, b, d);
            let va = eval(p, vb.m, a, d);
            ve.end == End::Next && vc.end == End::Next && vb.end == End::Next && va.end == End::Next ==> out == apply(va.m, o, seq![va.v, vb.v, vc.v, ve.v])
        }),
{
    let args = seq![a, b, c, e];
    reveal(eval);
    reveal(eval_from);
    reveal(exec);
    reveal(run_first);
    lemma_from(p, m, args, 4, d);
    let ve = eval(p, m, e, d);
    let vc = eval(p, ve.m, c, d);
    let vb = eval(p, vc.m, b, d);
    let va = eval(p, vb.m, a, d);
    if ve.end == End::Next && vc.end == End::Next && vb.end == End::Next && va.end == End::Next {
        lemma_from(p, m, args, 3, d);
        assert(eval_from(p, m, args, 3, d).vs =~= seq![ve.v]);
        lemma_from(p, m, args, 2, d);
        assert(eval_from(p, m, args, 2, d).vs =~= seq![vc.v, ve.v]);
        lemma_from(p, m, args, 1, d);
        assert(eval_from(p, m, args, 1, d).vs =~= seq![vb.v, vc.v, ve.v]);
        lemma_from(p, m, args, 0, d);
        assert(eval_from(p, m, args, 0, d).vs =~= seq![va.v, vb.v, vc.v, ve.v]);
    }
}

pub broadcast proof fn lemma_op7(
    p: Map<Seq<char>, YulFn>,
    m: Machine,
    o: Op,
    a: YulExpr,
    b: YulExpr,
    c: YulExpr,
    e: YulExpr,
    f: YulExpr,
    h: YulExpr,
    i: YulExpr,
    d: nat,
)
    ensures
        ({
            let out = #[trigger] eval(p, m, op7(o, a, b, c, e, f, h, i), d);
            let vi = eval(p, m, i, d);
            let vh = eval(p, vi.m, h, d);
            let vf = eval(p, vh.m, f, d);
            let ve = eval(p, vf.m, e, d);
            let vc = eval(p, ve.m, c, d);
            let vb = eval(p, vc.m, b, d);
            let va = eval(p, vb.m, a, d);
            vi.end == End::Next && vh.end == End::Next && vf.end == End::Next && ve.end == End::Next && vc.end == End::Next && vb.end == End::Next && va.end == End::Next ==> out == apply(va.m, o, seq![va.v, vb.v, vc.v, ve.v, vf.v, vh.v, vi.v])
        }),
{
    let args = seq![a, b, c, e, f, h, i];
    reveal(eval);
    reveal(eval_from);
    reveal(exec);
    reveal(run_first);
    lemma_from(p, m, args, 7, d);
    let vi = eval(p, m, i, d);
    let vh = eval(p, vi.m, h, d);
    let vf = eval(p, vh.m, f, d);
    let ve = eval(p, vf.m, e, d);
    let vc = eval(p, ve.m, c, d);
    let vb = eval(p, vc.m, b, d);
    let va = eval(p, vb.m, a, d);
    if vi.end == End::Next && vh.end == End::Next && vf.end == End::Next && ve.end == End::Next && vc.end == End::Next && vb.end == End::Next && va.end == End::Next {
        lemma_from(p, m, args, 6, d);
        assert(eval_from(p, m, args, 6, d).vs =~= seq![vi.v]);
        lemma_from(p, m, args, 5, d);
        assert(eval_from(p, m, args, 5, d).vs =~= seq![vh.v, vi.v]);
        lemma_from(p, m, args, 4, d);
        assert(eval_from(p, m, args, 4, d).vs =~= seq![vf.v, vh.v, vi.v]);
        lemma_from(p, m, args, 3, d);
        assert(eval_from(p, m, args, 3, d).vs =~= seq![ve.v, vf.v, vh.v, vi.v]);
        lemma_from(p, m, args, 2, d);
        assert(eval_from(p, m, args, 2, d).vs =~= seq![vc.v, ve.v, vf.v, vh.v, vi.v]);
        lemma_from(p, m, args, 1, d);
        assert(eval_from(p, m, args, 1, d).vs =~= seq![vb.v, vc.v, ve.v, vf.v, vh.v, vi.v]);
        lemma_from(p, m, args, 0, d);
        assert(eval_from(p, m, args, 0, d).vs =~= seq![va.v, vb.v, vc.v, ve.v, vf.v, vh.v, vi.v]);
    }
}

pub broadcast proof fn lemma_own0(
    p: Map<Seq<char>, YulFn>,
    m: Machine,
    f: Seq<char>,
    d: nat,
)
    ensures
        #[trigger] eval(p, m, own0(f), d) == ({
            called(p, m, f, Seq::empty(), d)
        }),
{
    let args = Seq::<YulExpr>::empty();
    reveal_with_fuel(eval_from, 2);
    reveal(eval);
    reveal(exec);
    reveal(run_first);
    assert(eval_from(p, m, args, 0, d).vs =~= Seq::<int>::empty());
}

pub broadcast proof fn lemma_own1(
    p: Map<Seq<char>, YulFn>,
    m: Machine,
    f: Seq<char>,
    a: YulExpr,
    d: nat,
)
    ensures
        #[trigger] eval(p, m, own1(f, a), d) == ({
            let va = eval(p, m, a, d);
            if va.end != End::Next {
                stop(va.m, va.end)
            } else {
                called(p, va.m, f, seq![va.v], d)
            }
        }),
{
    let args = seq![a];
    reveal_with_fuel(eval_from, 3);
    reveal(eval);
    reveal(exec);
    reveal(run_first);
    assert(eval_from(p, m, args, 1, d).vs =~= Seq::<int>::empty());
    let va = eval(p, m, a, d);
    assert(va.end == End::Next ==> eval_from(p, m, args, 0, d).vs =~= seq![va.v]);
}

pub broadcast proof fn lemma_own2(
    p: Map<Seq<char>, YulFn>,
    m: Machine,
    f: Seq<char>,
    a: YulExpr,
    b: YulExpr,
    d: nat,
)
    ensures
        #[trigger] eval(p, m, own2(f, a, b), d) == ({
            let vb = eval(p, m, b, d);
            if vb.end != End::Next {
                stop(vb.m, vb.end)
            } else {
                let va = eval(p, vb.m, a, d);
                if va.end != End::Next {
                    stop(va.m, va.end)
                } else {
                    called(p, va.m, f, seq![va.v, vb.v], d)
                }
            }
        }),
{
    let args = seq![a, b];
    reveal_with_fuel(eval_from, 4);
    reveal(eval);
    reveal(exec);
    reveal(run_first);
    assert(eval_from(p, m, args, 2, d).vs =~= Seq::<int>::empty());
    let vb = eval(p, m, b, d);
    assert(vb.end == End::Next ==> eval_from(p, m, args, 1, d).vs =~= seq![vb.v]);
    let va = eval(p, vb.m, a, d);
    assert(vb.end == End::Next && va.end == End::Next ==> eval_from(p, m, args, 0, d).vs =~= seq![va.v, vb.v]);
}

pub broadcast proof fn lemma_own3(
    p: Map<Seq<char>, YulFn>,
    m: Machine,
    f: Seq<char>,
    a: YulExpr,
    b: YulExpr,
    c: YulExpr,
    d: nat,
)
    ensures
        #[trigger] eval(p, m, own3(f, a, b, c), d) == ({
            let vc = eval(p, m, c, d);
            if vc.end != End::Next {
                stop(vc.m, vc.end)
            } else {
                let vb = eval(p, vc.m, b, d);
                if vb.end != End::Next {
                    stop(vb.m, vb.end)
                } else {
                    let va = eval(p, vb.m, a, d);
                    if va.end != End::Next {
                        stop(va.m, va.end)
                    } else {
                        called(p, va.m, f, seq![va.v, vb.v, vc.v], d)
                    }
                }
            }
        }),
{
    let args = seq![a, b, c];
    reveal_with_fuel(eval_from, 5);
    reveal(eval);
    reveal(exec);
    reveal(run_first);
    assert(eval_from(p, m, args, 3, d).vs =~= Seq::<int>::empty());
    let vc = eval(p, m, c, d);
    assert(vc.end == End::Next ==> eval_from(p, m, args, 2, d).vs =~= seq![vc.v]);
    let vb = eval(p, vc.m, b, d);
    assert(vc.end == End::Next && vb.end == End::Next ==> eval_from(p, m, args, 1, d).vs =~= seq![vb.v, vc.v]);
    let va = eval(p, vb.m, a, d);
    assert(vc.end == End::Next && vb.end == End::Next && va.end == End::Next ==> eval_from(p, m, args, 0, d).vs =~= seq![va.v, vb.v, vc.v]);
}

pub broadcast proof fn lemma_own4(
    p: Map<Seq<char>, YulFn>,
    m: Machine,
    f: Seq<char>,
    a: YulExpr,
    b: YulExpr,
    c: YulExpr,
    e: YulExpr,
    d: nat,
)
    ensures
        ({
            let out = #[trigger] eval(p, m, own4(f, a, b, c, e), d);
            let ve = eval(p, m, e, d);
            let vc = eval(p, ve.m, c, d);
            let vb = eval(p, vc.m, b, d);
            let va = eval(p, vb.m, a, d);
            ve.end == End::Next && vc.end == End::Next && vb.end == End::Next && va.end == End::Next ==> out == called(p, va.m, f, seq![va.v, vb.v, vc.v, ve.v], d)
        }),
{
    let args = seq![a, b, c, e];
    reveal(eval);
    reveal(eval_from);
    reveal(exec);
    reveal(run_first);
    lemma_from(p, m, args, 4, d);
    let ve = eval(p, m, e, d);
    let vc = eval(p, ve.m, c, d);
    let vb = eval(p, vc.m, b, d);
    let va = eval(p, vb.m, a, d);
    if ve.end == End::Next && vc.end == End::Next && vb.end == End::Next && va.end == End::Next {
        lemma_from(p, m, args, 3, d);
        assert(eval_from(p, m, args, 3, d).vs =~= seq![ve.v]);
        lemma_from(p, m, args, 2, d);
        assert(eval_from(p, m, args, 2, d).vs =~= seq![vc.v, ve.v]);
        lemma_from(p, m, args, 1, d);
        assert(eval_from(p, m, args, 1, d).vs =~= seq![vb.v, vc.v, ve.v]);
        lemma_from(p, m, args, 0, d);
        assert(eval_from(p, m, args, 0, d).vs =~= seq![va.v, vb.v, vc.v, ve.v]);
    }
}

pub broadcast proof fn lemma_let(
    p: Map<Seq<char>, YulFn>,
    m: Machine,
    x: Seq<char>,
    e: YulExpr,
    d: nat,
)
    ensures
        #[trigger] exec(p, m, YulStmt::Let(x, e), d) == ({
            let o = eval(p, m, e, d);
            if o.end != End::Next {
                (o.m, o.end)
            } else {
                (Machine { vars: o.m.vars.insert(x, o.v), ..o.m }, End::Next)
            }
        }),
{
    reveal(eval);
    reveal(exec);
    reveal(run_first);
}

pub broadcast proof fn lemma_put(
    p: Map<Seq<char>, YulFn>,
    m: Machine,
    x: Seq<char>,
    e: YulExpr,
    d: nat,
)
    ensures
        #[trigger] exec(p, m, YulStmt::Put(x, e), d) == ({
            let o = eval(p, m, e, d);
            if o.end != End::Next {
                (o.m, o.end)
            } else {
                (Machine { vars: o.m.vars.insert(x, o.v), ..o.m }, End::Next)
            }
        }),
{
    reveal(eval);
    reveal(exec);
    reveal(run_first);
}

pub broadcast proof fn lemma_do(p: Map<Seq<char>, YulFn>, m: Machine, e: YulExpr, d: nat)
    ensures
        #[trigger] exec(p, m, YulStmt::Do(e), d) == ({
            let o = eval(p, m, e, d);
            (o.m, o.end)
        }),
{
    reveal(eval);
    reveal(exec);
    reveal(run_first);
}

pub broadcast proof fn lemma_leave(p: Map<Seq<char>, YulFn>, m: Machine, d: nat)
    ensures
        #[trigger] exec(p, m, YulStmt::Leave, d) == (m, End::Leave),
{
    reveal(eval);
    reveal(exec);
    reveal(run_first);
}

pub broadcast proof fn lemma_if(
    p: Map<Seq<char>, YulFn>,
    m: Machine,
    c: YulExpr,
    b: Code,
    d: nat,
)
    ensures
        #[trigger] exec(p, m, YulStmt::If(c, b), d) == ({
            let o = eval(p, m, c, d);
            if o.end != End::Next {
                (o.m, o.end)
            } else if o.v == 0 {
                (o.m, End::Next)
            } else {
                let (after, end) = run(p, o.m, b, d);
                (closed(o.m, after), end)
            }
        }),
{
    reveal(eval);
    reveal(exec);
    reveal(run_first);
}

pub broadcast proof fn lemma_block(p: Map<Seq<char>, YulFn>, m: Machine, b: Code, d: nat)
    ensures
        #[trigger] exec(p, m, YulStmt::Block(b), d) == ({
            let (after, end) = run(p, m, b, d);
            (closed(m, after), end)
        }),
{
    reveal(eval);
    reveal(exec);
    reveal(run_first);
}

proof fn lemma_run_prefix(
    p: Map<Seq<char>, YulFn>,
    m: Machine,
    a: Seq<(Seq<char>, YulStmt)>,
    b: Seq<(Seq<char>, YulStmt)>,
    n: nat,
    d: nat,
)
    requires
        n <= a.len(),
        n <= b.len(),
        forall|i: int| 0 <= i < n ==> (#[trigger] a[i]).1 == b[i].1,
    ensures
        run_first(p, m, a, n, d) == run_first(p, m, b, n, d),
    decreases n,
{
    reveal(eval);
    reveal(exec);
    reveal(run_first);
    if n > 0 {
        lemma_run_prefix(p, m, a, b, (n - 1) as nat, d);
        assert(a[n - 1].1 == b[n - 1].1);
    }
}

/// What code with one statement more does.
pub broadcast proof fn lemma_run_line(
    p: Map<Seq<char>, YulFn>,
    m: Machine,
    c: Code,
    gap: Seq<char>,
    s: YulStmt,
    d: nat,
)
    ensures
        #[trigger] run(p, m, line(c, gap, s), d) == ({
            let (k, end) = run(p, m, c, d);
            if end != End::Next {
                (k, end)
            } else {
                exec(p, k, s, d)
            }
        }),
{
    reveal(eval);
    reveal(exec);
    reveal(run_first);
    let q = line(c, gap, s).parts;
    assert(q[q.len() - 1].1 == s);
    lemma_run_prefix(p, m, q, c.parts, c.parts.len(), d);
}

pub broadcast proof fn lemma_run_none(p: Map<Seq<char>, YulFn>, m: Machine, d: nat)
    ensures
        #[trigger] run(p, m, none(), d) == (m, End::Next),
{
    reveal(eval);
    reveal(exec);
    reveal(run_first);
}

pub broadcast proof fn lemma_run_tail(
    p: Map<Seq<char>, YulFn>,
    m: Machine,
    c: Code,
    gap: Seq<char>,
    d: nat,
)
    ensures
        #[trigger] run(p, m, tail(c, gap), d) == run(p, m, c, d),
{
}

proof fn lemma_run_split(
    p: Map<Seq<char>, YulFn>,
    m: Machine,
    a: Seq<(Seq<char>, YulStmt)>,
    b: Seq<(Seq<char>, YulStmt)>,
    n: nat,
    d: nat,
)
    requires
        n <= b.len(),
    ensures
        run_first(p, m, a + b, a.len() + n, d) == ({
            let (k, end) = run_first(p, m, a, a.len(), d);
            if end != End::Next {
                (k, end)
            } else {
                run_first(p, k, b, n, d)
            }
        }),
    decreases n,
{
    reveal(eval);
    reveal(exec);
    reveal(run_first);
    if n == 0 {
        lemma_run_prefix(p, m, a + b, a, a.len(), d);
    } else {
        lemma_run_split(p, m, a, b, (n - 1) as nat, d);
        assert((a + b)[a.len() + n - 1] == b[n - 1]);
    }
}

/// Two pieces of code, one behind the other, run one after the other.
pub proof fn law_code_follows(p: Map<Seq<char>, YulFn>, m: Machine, a: Code, b: Code, d: nat)
    ensures
        run(p, m, both(a, b), d) == ({
            let (k, end) = run(p, m, a, d);
            if end != End::Next {
                (k, end)
            } else {
                run(p, k, b, d)
            }
        }),
{
    reveal(eval);
    reveal(exec);
    reveal(run_first);
    if b.parts.len() > 0 {
        let u = b.parts.update(0, (a.tail + b.parts[0].0, b.parts[0].1));
        lemma_run_split(p, m, a.parts, u, u.len(), d);
        let (k, _) = run(p, m, a, d);
        lemma_run_prefix(p, k, u, b.parts, u.len(), d);
    }
}

pub broadcast group group_steps {
    lemma_num,
    lemma_var,
    lemma_op0,
    lemma_op1,
    lemma_op2,
    lemma_op3,
    lemma_op4,
    lemma_op7,
    lemma_own0,
    lemma_own1,
    lemma_own2,
    lemma_own3,
    lemma_own4,
    lemma_let,
    lemma_put,
    lemma_do,
    lemma_leave,
    lemma_if,
    lemma_block,
    lemma_run_line,
    lemma_run_none,
    lemma_run_tail,
}

} // verus!
