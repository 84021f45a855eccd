//! Where the topics and the data of a logged event come from.
use crate::ast::ExprV;
use crate::codegen::abi::map_type_spec;
use crate::codegen::tr_blob::blob_spec;
use crate::codegen::tr_expr::translate_expr_spec;
use crate::codegen::tr_leave::bind_lines;
use crate::codegen::tr_log::{
    event_name_spec, log_data, log_schema, log_signature, log_spec, log_topics,
};
use crate::codegen::tr_types::static_type_spec;
use crate::codegen::translator::{event_spec, CtxV, EnvV, StV};
use crate::codegen::yul::keccak_hex_spec;
use crate::codegen::yul_text::lemma_assoc;
use crate::codegen::yul_tree::{args_text, expr_text, num, var, Fun, Op, YulExpr};
use crate::text::{dec, join_spec};
use vstd::prelude::*;

verus! {

/// Whether an argument of `log` is written `indexed(..)`.
pub open spec fn written_indexed(a: ExprV) -> bool {
    a matches ExprV::FnCall { name, args } && name == "indexed"@ && args.len() == 1
}

/// The value that an argument of `log` hands over.
pub open spec fn handed(a: ExprV) -> ExprV {
    if written_indexed(a) {
        a->FnCall_args[0]
    } else {
        a
    }
}

/// Whether places of arguments, in written order, are those that are indexed or those that
/// are not, up to argument `n`.
pub open spec fn places(pos: Seq<int>, args: Seq<ExprV>, indexed: bool, n: nat) -> bool {
    &&& forall|j: int, k: int| 0 <= j < k < pos.len() ==> #[trigger] pos[j] < #[trigger] pos[k]
    &&& forall|j: int|
        0 <= j < pos.len() ==> 1 <= #[trigger] pos[j] <= n && written_indexed(args[pos[j]])
            == indexed
    &&& forall|i: int|
        1 <= i <= n && written_indexed(#[trigger] args[i]) == indexed ==> exists|j: int|
            0 <= j < pos.len() && pos[j] == i
}

/// Whether a text is the code of an expression, made in some state of the translation.
pub open spec fn code_of(g: EnvV, cx: CtxV, e: ExprV, t: Seq<char>) -> bool {
    exists|st: StV| (#[trigger] translate_expr_spec(g, st, cx, e)).1 == t
}

proof fn lemma_places(pos: Seq<int>, args: Seq<ExprV>, indexed: bool, n: nat)
    requires
        n > 0,
        places(pos, args, indexed, (n - 1) as nat),
    ensures
        written_indexed(args[n as int]) == indexed ==> places(pos.push(n as int), args, indexed, n),
        written_indexed(args[n as int]) != indexed ==> places(pos, args, indexed, n),
{
    let q = pos.push(n as int);
    if written_indexed(args[n as int]) == indexed {
        assert forall|i: int|
            1 <= i <= n && written_indexed(#[trigger] args[i]) == indexed implies exists|j: int|
            0 <= j < q.len() && q[j] == i by {
            if i == n {
                assert(q[pos.len() as int] == i);
            } else {
                let j = choose|j: int| 0 <= j < pos.len() && pos[j] == i;
                assert(q[j] == i);
            }
        }
    }
}

proof fn lemma_topics(g: EnvV, st: StV, cx: CtxV, args: Seq<ExprV>, n: nat) -> (pos: Seq<int>)
    requires
        n < args.len(),
    ensures
        places(pos, args, true, n),
        pos.len() == log_topics(g, st, cx, args, n).1.len(),
        forall|j: int|
            0 <= j < pos.len() ==> code_of(
                g,
                cx,
                handed(args[pos[j]]),
                #[trigger] log_topics(g, st, cx, args, n).1[j],
            ),
    decreases n,
{
    if n == 0 {
        Seq::empty()
    } else {
        let pos = lemma_topics(g, st, cx, args, (n - 1) as nat);
        lemma_places(pos, args, true, n);
        let old_topics = log_topics(g, st, cx, args, (n - 1) as nat).1;
        let topics = log_topics(g, st, cx, args, n).1;
        if written_indexed(args[n as int]) {
            let q = pos.push(n as int);
            assert forall|j: int| 0 <= j < q.len() implies code_of(
                g,
                cx,
                handed(args[q[j]]),
                #[trigger] topics[j],
            ) by {
                if j < pos.len() {
                    assert(topics[j] == old_topics[j]);
                }
            }
            q
        } else {
            assert(topics =~= old_topics);
            pos
        }
    }
}

proof fn lemma_data(g: EnvV, st: StV, cx: CtxV, args: Seq<ExprV>, n: nat) -> (pos: Seq<int>)
    requires
        n < args.len(),
    ensures
        places(pos, args, false, n),
        pos.len() == log_data(g, st, cx, args, n).1.len(),
        pos.len() == log_data(g, st, cx, args, n).2.len(),
        forall|j: int|
            0 <= j < pos.len() ==> code_of(
                g,
                cx,
                handed(args[pos[j]]),
                #[trigger] log_data(g, st, cx, args, n).1[j],
            ),
        forall|j: int|
            0 <= j < pos.len() ==> #[trigger] log_data(g, st, cx, args, n).2[j]
                == static_type_spec(g, cx, handed(args[pos[j]])),
    decreases n,
{
    if n == 0 {
        Seq::empty()
    } else {
        let pos = lemma_data(g, st, cx, args, (n - 1) as nat);
        lemma_places(pos, args, false, n);
        let (_, vals, ts) = log_data(g, st, cx, args, n);
        let (_, old_vals, old_ts) = log_data(g, st, cx, args, (n - 1) as nat);
        if !written_indexed(args[n as int]) {
            let q = pos.push(n as int);
            assert forall|j: int| 0 <= j < q.len() implies code_of(
                g,
                cx,
                handed(args[q[j]]),
                #[trigger] vals[j],
            ) by {
                if j < pos.len() {
                    assert(vals[j] == old_vals[j]);
                }
            }
            assert forall|j: int| 0 <= j < q.len() implies #[trigger] ts[j] == static_type_spec(
                g,
                cx,
                handed(args[q[j]]),
            ) by {
                if j < pos.len() {
                    assert(ts[j] == old_ts[j]);
                }
            }
            q
        } else {
            pos
        }
    }
}

/// The topic with number `j` behind the event's hash is the code of the `j`-th argument
/// written `indexed(..)`, and that argument's input in the ABI entry is the `j`-th that is
/// marked as indexed. Each input has the type of its argument.
pub proof fn law_topics_in_written_order(g: EnvV, st: StV, cx: CtxV, args: Seq<ExprV>)
    requires
        args.len() > 0,
    ensures
        exists|pos: Seq<int>|
            {
                let topics = log_topics(g, st, cx, args, (args.len() - 1) as nat).1;
                let inputs = log_schema(g, cx, args).inputs;
                &&& #[trigger] places(pos, args, true, (args.len() - 1) as nat)
                &&& pos.len() == topics.len()
                &&& forall|j: int|
                    0 <= j < pos.len() ==> code_of(
                        g,
                        cx,
                        handed(args[pos[j]]),
                        #[trigger] topics[j],
                    )
                &&& inputs.len() == args.len() - 1
                &&& forall|i: int|
                    0 <= i < inputs.len() ==> (#[trigger] inputs[i]).indexed == Some(
                        pos.contains(i + 1),
                    )
                &&& forall|i: int|
                    0 <= i < inputs.len() ==> (#[trigger] inputs[i]).type_text == map_type_spec(
                        g.aw,
                        static_type_spec(g, cx, handed(args[i + 1])),
                    )
            },
{
    let n = (args.len() - 1) as nat;
    let topics = log_topics(g, st, cx, args, n).1;
    let inputs = log_schema(g, cx, args).inputs;
    let pos = lemma_topics(g, st, cx, args, n);
    assert forall|i: int| 0 <= i < inputs.len() implies (#[trigger] inputs[i]).indexed == Some(
        pos.contains(i + 1),
    ) by {
        let a = args[i + 1];
        if written_indexed(a) {
            let j = choose|j: int| 0 <= j < pos.len() && pos[j] == i + 1;
            assert(pos[j] == i + 1);
        }
    }
    assert(places(pos, args, true, n));
}

/// The data of the event are the values of the other arguments in written order, each with
/// its type, and those are the inputs of the ABI entry that are not marked as indexed.
pub proof fn law_data_in_written_order(g: EnvV, st: StV, cx: CtxV, args: Seq<ExprV>)
    requires
        args.len() > 0,
    ensures
        exists|pos: Seq<int>|
            {
                let vals = log_data(g, st, cx, args, (args.len() - 1) as nat).1;
                let ts = log_data(g, st, cx, args, (args.len() - 1) as nat).2;
                let inputs = log_schema(g, cx, args).inputs;
                &&& #[trigger] places(pos, args, false, (args.len() - 1) as nat)
                &&& pos.len() == vals.len()
                &&& pos.len() == ts.len()
                &&& forall|j: int|
                    0 <= j < pos.len() ==> code_of(g, cx, handed(args[pos[j]]), #[trigger] vals[j])
                &&& forall|j: int|
                    0 <= j < pos.len() ==> #[trigger] ts[j] == static_type_spec(
                        g,
                        cx,
                        handed(args[pos[j]]),
                    )
                &&& forall|i: int|
                    0 <= i < inputs.len() ==> (#[trigger] inputs[i]).indexed == Some(
                        !pos.contains(i + 1),
                    )
            },
{
    let n = (args.len() - 1) as nat;
    let inputs = log_schema(g, cx, args).inputs;
    let pos = lemma_data(g, st, cx, args, n);
    assert forall|i: int| 0 <= i < inputs.len() implies (#[trigger] inputs[i]).indexed == Some(
        !pos.contains(i + 1),
    ) by {
        let a = args[i + 1];
        if !written_indexed(a) {
            let j = choose|j: int| 0 <= j < pos.len() && pos[j] == i + 1;
            assert(pos[j] == i + 1);
        }
    }
    assert(places(pos, args, false, n));
}

proof fn lemma_list(args: Seq<YulExpr>, ts: Seq<Seq<char>>, n: nat)
    requires
        args.len() == ts.len(),
        n <= ts.len(),
        forall|i: int| 0 <= i < ts.len() ==> expr_text(#[trigger] args[i]) == ts[i],
    ensures
        args_text(args, n) == join_spec(ts.subrange(0, n as int), ", "@),
    decreases n,
{
    let part = ts.subrange(0, n as int);
    if n > 1 {
        lemma_list(args, ts, (n - 1) as nat);
        assert(part.drop_last() =~= ts.subrange(0, n - 1));
        assert(part.last() == ts[n - 1]);
    } else if n == 1 {
        assert(part[0] == ts[0]);
    }
}

proof fn lemma_first(x: Seq<char>, ys: Seq<Seq<char>>)
    requires
        ys.len() > 0,
    ensures
        join_spec(seq![x] + ys, ", "@) == x + ", "@ + join_spec(ys, ", "@),
    decreases ys.len(),
{
    let all = seq![x] + ys;
    assert(all.drop_last() =~= seq![x] + ys.drop_last());
    assert(all.last() == ys.last());
    if ys.len() == 1 {
        assert(all.drop_last() =~= seq![x]);
        assert(join_spec(seq![x], ", "@) == x);
        assert(join_spec(ys, ", "@) == ys[0]);
    } else {
        lemma_first(x, ys.drop_last());
        assert(join_spec(all, ", "@) =~= x + ", "@ + join_spec(ys, ", "@));
    }
}

/// The statement of `log` holds one call, of the operation that logs as many topics as there
/// are: the hash of the event's signature and then the others in order. It logs no memory
/// where every argument is indexed, and the encoded data elsewhere.
pub proof fn law_log_call(
    g: EnvV,
    st: StV,
    cx: CtxV,
    args: Seq<ExprV>,
    hash: YulExpr,
    more: Seq<YulExpr>,
)
    requires
        args.len() > 0,
        expr_text(hash) == keccak_hex_spec(log_signature(g, cx, args)),
        ({
            let n = (args.len() - 1) as nat;
            let st = event_spec(st, event_name_spec(args[0]), log_schema(g, cx, args));
            let topics = log_topics(g, st, cx, args, n).1;
            &&& more.len() == topics.len()
            &&& forall|j: int| 0 <= j < topics.len() ==> expr_text(#[trigger] more[j]) == topics[j]
        }),
    ensures
        exists|before: Seq<char>, after: Seq<char>, plain: bool|
            log_spec(g, st, cx, args).1 == #[trigger] logs(before, after, hash, more, plain) && (
            plain ==> forall|i: int| 1 <= i < args.len() ==> written_indexed(#[trigger] args[i])),
{
    let n = (args.len() - 1) as nat;
    let st1 = event_spec(st, event_name_spec(args[0]), log_schema(g, cx, args));
    let (st2, topics) = log_topics(g, st1, cx, args, n);
    let all = seq![keccak_hex_spec(log_signature(g, cx, args))] + topics;
    let (st3, vals, ts) = log_data(g, st2, cx, args, n);
    let list = join_spec(all, ", "@);
    let plain = vals.len() == 0;
    let (a, b) = if plain {
        (num("0"@), num("0"@))
    } else {
        (var("blob"@), var("alen"@))
    };
    let lead = if plain {
        seq![num("0"@), num("0"@), hash]
    } else {
        seq![var("blob"@), var("alen"@), hash]
    };
    let es = lead + more;
    let e = log_call(hash, more, plain);
    let texts = seq![expr_text(a), expr_text(b)] + all;
    assert forall|i: int| 0 <= i < texts.len() implies expr_text(#[trigger] es[i]) == texts[i] by {
        if i >= 3 {
            assert(es[i] == more[i - 3]);
            assert(texts[i] == topics[i - 3]);
        }
    }
    lemma_list(es, texts, texts.len());
    assert(texts.subrange(0, texts.len() as int) =~= texts);
    let tail_texts = seq![expr_text(b)] + all;
    assert(texts =~= seq![expr_text(a)] + tail_texts);
    lemma_first(expr_text(a), tail_texts);
    lemma_first(expr_text(b), all);
    let op = "log"@ + dec(all.len());
    assert(all.len() == more.len() + 1);
    assert(expr_text(e) == op + "("@ + args_text(es, es.len()) + ")"@);
    assert(args_text(es, es.len()) == expr_text(a) + ", "@ + (expr_text(b) + ", "@ + list));
    if plain {
        let pos = lemma_data(g, st2, cx, args, n);
        assert forall|i: int| 1 <= i < args.len() implies written_indexed(#[trigger] args[i]) by {
            if !written_indexed(args[i]) {
                let j = choose|j: int| 0 <= j < pos.len() && pos[j] == i;
                assert(pos[j] == i);
            }
        }
        assert("(0, 0, "@ =~= "("@ + "0"@ + ", "@ + "0"@ + ", "@) by {
            reveal_strlit("(0, 0, ");
            reveal_strlit("(");
            reveal_strlit("0");
            reveal_strlit(", ");
        }
        assert(")\n"@ =~= ")"@ + "\n"@) by {
            reveal_strlit(")\n");
            reveal_strlit(")");
            reveal_strlit("\n");
        }
        let t = op + "("@ + args_text(es, es.len()) + ")"@ + "\n"@;
        assert(log_spec(g, st, cx, args).1 == op + "(0, 0, "@ + list + ")\n"@);
        assert(op + "(0, 0, "@ + list + ")\n"@ == t) by {
            broadcast use lemma_assoc;

        }
        assert(Seq::<char>::empty() + expr_text(e) =~= expr_text(e));
        assert(log_spec(g, st, cx, args).1 == logs(Seq::empty(), "\n"@, hash, more, plain));
    } else {
        let pair = blob_spec(g, st3, ts).1;
        let before = "{\n"@ + bind_lines(""@, vals, vals.len()) + pair.0
            + "let blob := allocate_memory(alen)\n"@ + pair.1;
        assert("(blob, alen, "@ =~= "("@ + "blob"@ + ", "@ + "alen"@ + ", "@) by {
            reveal_strlit("(blob, alen, ");
            reveal_strlit("(");
            reveal_strlit("blob");
            reveal_strlit("alen");
            reveal_strlit(", ");
        }
        assert(")\n}\n"@ =~= ")"@ + "\n}\n"@) by {
            reveal_strlit(")\n}\n");
            reveal_strlit(")");
            reveal_strlit("\n}\n");
        }
        assert(log_spec(g, st, cx, args).1 == before + op + "(blob, alen, "@ + list + ")\n}\n"@);
        let t = before + (op + "("@ + args_text(es, es.len()) + ")"@) + "\n}\n"@;
        assert(before + op + "(blob, alen, "@ + list + ")\n}\n"@ == t) by {
            broadcast use lemma_assoc;

        }
        assert(log_spec(g, st, cx, args).1 == logs(before, "\n}\n"@, hash, more, plain));
    }
}

/// The call that logs: from where and how much, and the topics.
pub open spec fn log_call(hash: YulExpr, more: Seq<YulExpr>, plain: bool) -> YulExpr {
    YulExpr::Call(
        Fun::Op(Op::Log(more.len() + 1)),
        (if plain {
            seq![num("0"@), num("0"@), hash]
        } else {
            seq![var("blob"@), var("alen"@), hash]
        }) + more,
    )
}

/// The text of that call between two others.
pub open spec fn logs(
    before: Seq<char>,
    after: Seq<char>,
    hash: YulExpr,
    more: Seq<YulExpr>,
    plain: bool,
) -> Seq<char> {
    before + expr_text(log_call(hash, more, plain)) + after
}

} // verus!
