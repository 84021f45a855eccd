//! `log(Event, ..)`: the shape of the event, its topics and its data.
use crate::ast::{exprs_v, types_v, Expr, ExprV, Type, TypeV};
use crate::codegen::abi::{map_type_spec, parts_spec, sig_spec, AbiInput, InputV};
use crate::codegen::tr_blob::blob_spec;
use crate::codegen::tr_expr::{prepend, translate_expr_spec};
use crate::codegen::tr_leave::{bind_lines, bind_lines_text};
use crate::codegen::tr_types::static_type_spec;
use crate::codegen::translator::{
    error_spec, event_spec, Ctx, CtxV, EnvV, EventSchema, SchemaV, StV, Translator,
};
use crate::codegen::yul::{abi_scalar, is_abi_scalar, keccak256_hex, keccak_hex_spec};
use crate::semantic::scalar_enum;
use crate::text::{cat2, cat4, cat5, dec, dec_text, join, join_spec, same, texts};
use vstd::prelude::*;

verus! {

broadcast use crate::ast::group_views;

/// A field that is logged: whether it is indexed, and its value.
pub open spec fn logged(a: ExprV) -> (bool, ExprV) {
    match a {
        ExprV::FnCall { name, args } => if name == "indexed"@ && args.len() == 1 {
            (true, args[0])
        } else {
            (false, a)
        },
        _ => (false, a),
    }
}

fn log_field(a: &Expr) -> (r: (bool, &Expr))
    ensures
        (r.0, r.1@) == logged(a@),
{
    proof {
        reveal_with_fuel(Expr::view, 2);
    }
    match a {
        Expr::FnCall { name, args } => if same(name.as_str(), "indexed") && args.len() == 1 {
            assert(exprs_v(args@)[0] == args@[0]@);
            (true, &args[0])
        } else {
            (false, a)
        },
        _ => (false, a),
    }
}

/// The name of the event that the first argument stands for.
pub open spec fn event_name_spec(a: ExprV) -> Seq<char> {
    match a {
        ExprV::PropertyAccess { base: _, property } => property,
        ExprV::Identifier(name) => name,
        _ => "UnknownEvent"@,
    }
}

fn event_name(a: &Expr) -> (r: String)
    ensures
        r@ == event_name_spec(a@),
{
    match a {
        Expr::PropertyAccess { base: _, property } => property.clone(),
        Expr::Identifier(name) => name.clone(),
        _ => String::from_str("UnknownEvent"),
    }
}

/// The type of the `i`-th field, counted from the first argument after the event.
pub open spec fn field_type_at(g: EnvV, cx: CtxV, args: Seq<ExprV>, i: int) -> TypeV {
    static_type_spec(g, cx, logged(args[i + 1]).1)
}

pub open spec fn log_sigs(g: EnvV, cx: CtxV, args: Seq<ExprV>) -> Seq<Seq<char>> {
    Seq::new((args.len() - 1) as nat, |i: int| sig_spec(g.aw, field_type_at(g, cx, args, i)))
}

pub open spec fn log_signature(g: EnvV, cx: CtxV, args: Seq<ExprV>) -> Seq<char> {
    event_name_spec(args[0]) + "("@ + join_spec(log_sigs(g, cx, args), ","@) + ")"@
}

/// How the `i`-th field stands in the ABI: a variable lends it its name.
pub open spec fn log_input(g: EnvV, cx: CtxV, args: Seq<ExprV>, i: int) -> InputV {
    let t = field_type_at(g, cx, args, i);
    InputV {
        name: (match logged(args[i + 1]).1 {
            ExprV::Identifier(n) => n,
            _ => Seq::empty(),
        }),
        type_text: map_type_spec(g.aw, t),
        components: parts_spec(g.aw, t),
        indexed: Some(logged(args[i + 1]).0),
    }
}

pub open spec fn log_schema(g: EnvV, cx: CtxV, args: Seq<ExprV>) -> SchemaV {
    SchemaV {
        inputs: Seq::new((args.len() - 1) as nat, |i: int| log_input(g, cx, args, i)),
        signature: log_signature(g, cx, args),
    }
}

/// What is wrong with a topic that takes more than one word.
pub open spec fn wide_topic(g: EnvV, event: Seq<char>, t: TypeV) -> Seq<char> {
    "Semantic Error: an indexed field of event '"@ + event + "' must be one word, and '"@ + sig_spec(
        g.aw,
        t,
    )
        + "' is not. A topic is 32 bytes, so a longer value would have to be hashed to fit. Log it unindexed."@
}

/// The indexed ones of the first `n` fields, translated in order.
pub open spec fn log_topics(g: EnvV, st: StV, cx: CtxV, args: Seq<ExprV>, n: nat) -> (
    StV,
    Seq<Seq<char>>,
)
    decreases n,
{
    if n == 0 {
        (st, Seq::empty())
    } else {
        let (st, out) = log_topics(g, st, cx, args, (n - 1) as nat);
        let (indexed, e) = logged(args[n as int]);
        if indexed {
            let t = static_type_spec(g, cx, e);
            let st = if !abi_scalar(t) && !scalar_enum(g.w, t) {
                error_spec(st, wide_topic(g, event_name_spec(args[0]), t))
            } else {
                st
            };
            let (st, one) = translate_expr_spec(g, st, cx, e);
            (st, out.push(one))
        } else {
            (st, out)
        }
    }
}

/// The other ones of the first `n` fields, translated in order, with their types.
pub open spec fn log_data(g: EnvV, st: StV, cx: CtxV, args: Seq<ExprV>, n: nat) -> (
    StV,
    Seq<Seq<char>>,
    Seq<TypeV>,
)
    decreases n,
{
    if n == 0 {
        (st, Seq::empty(), Seq::empty())
    } else {
        let (st, out, ts) = log_data(g, st, cx, args, (n - 1) as nat);
        let (indexed, e) = logged(args[n as int]);
        if indexed {
            (st, out, ts)
        } else {
            let (st, one) = translate_expr_spec(g, st, cx, e);
            (st, out.push(one), ts.push(static_type_spec(g, cx, e)))
        }
    }
}

/// The statement that logs: the event's hash is the first topic.
pub open spec fn log_spec(g: EnvV, st: StV, cx: CtxV, args: Seq<ExprV>) -> (StV, Seq<char>) {
    if args.len() == 0 {
        (st, "/* log() requires an event argument */\n"@)
    } else {
        let n = (args.len() - 1) as nat;
        let st = event_spec(st, event_name_spec(args[0]), log_schema(g, cx, args));
        let (st, more) = log_topics(g, st, cx, args, n);
        let topics = seq![keccak_hex_spec(log_signature(g, cx, args))] + more;
        let op = "log"@ + dec(topics.len());
        let (st, vals, ts) = log_data(g, st, cx, args, n);
        if vals.len() == 0 {
            (st, op + "(0, 0, "@ + join_spec(topics, ", "@) + ")\n"@)
        } else {
            let (st, pair) = blob_spec(g, st, ts);
            (
                st,
                "{\n"@ + bind_lines(""@, vals, vals.len()) + pair.0
                    + "let blob := allocate_memory(alen)\n"@ + pair.1 + op + "(blob, alen, "@
                    + join_spec(topics, ", "@) + ")\n}\n"@,
            )
        }
    }
}

impl<'a> Translator<'a> {
    fn log_shape(&self, cx: &Ctx, args: &Vec<Expr>) -> (r: EventSchema)
        requires
            args@.len() > 0,
        ensures
            r@ == log_schema(self.env(), cx@, exprs_v(args@)),
    {
        let ghost g = self.env();
        let ghost av = exprs_v(args@);
        let mut sigs: Vec<String> = Vec::new();
        let mut inputs: Vec<AbiInput> = Vec::new();
        let mut i: usize = 1;
        while i < args.len()
            invariant
                1 <= i <= args@.len(),
                g == self.env(),
                av == exprs_v(args@),
                sigs@.len() == i - 1,
                inputs@.len() == i - 1,
                forall|k: int| 0 <= k < i - 1 ==> (#[trigger] sigs@[k])@ == log_sigs(g, cx@, av)[k],
                forall|k: int|
                    0 <= k < i - 1 ==> (#[trigger] inputs@[k])@ == log_input(g, cx@, av, k),
            decreases args@.len() - i,
        {
            let (indexed, e) = log_field(&args[i]);
            assert(av[i as int] == args@[i as int]@);
            let t = self.static_type(cx, e);
            sigs.push(self.abi_gen.signature_type(&t));
            let name = match e {
                Expr::Identifier(n) => n.clone(),
                _ => String::new(),
            };
            let input = AbiInput {
                name,
                type_text: self.abi_gen.map_type(&t),
                components: self.abi_gen.generate_components(&t),
                indexed: Some(indexed),
            };
            assert(input@.name =~= log_input(g, cx@, av, i - 1).name);
            inputs.push(input);
            i += 1;
        }
        proof {
            assert(texts(sigs@) =~= log_sigs(g, cx@, av));
            assert(av[0] == args@[0]@);
        }
        let signature = cat4(
            event_name(&args[0]).as_str(),
            "(",
            join(&sigs, ",").as_str(),
            ")",
        );
        let out = EventSchema { inputs, signature };
        assert(out@.inputs =~= log_schema(g, cx@, av).inputs);
        out
    }

    fn topics_of(&mut self, cx: &Ctx, args: &Vec<Expr>) -> (r: Vec<String>)
        requires
            args@.len() > 0,
        ensures
            final(self).env() == old(self).env(),
            log_topics(
                old(self).env(),
                old(self).st(),
                cx@,
                exprs_v(args@),
                (args@.len() - 1) as nat,
            ) == (final(self).st(), texts(r@)),
            r@.len() < args@.len(),
    {
        let ghost g = self.env();
        let ghost st0 = self.st();
        let ghost av = exprs_v(args@);
        let mut out: Vec<String> = Vec::new();
        let mut i: usize = 1;
        assert(texts(out@) =~= Seq::<Seq<char>>::empty());
        while i < args.len()
            invariant
                1 <= i <= args@.len(),
                g == self.env(),
                av == exprs_v(args@),
                out@.len() < i,
                log_topics(g, st0, cx@, av, (i - 1) as nat) == (self.st(), texts(out@)),
            decreases args@.len() - i,
        {
            let ghost before = texts(out@);
            let (indexed, e) = log_field(&args[i]);
            assert(av[i as int] == args@[i as int]@);
            assert(av[0] == args@[0]@);
            if indexed {
                let t = self.static_type(cx, e);
                if !is_abi_scalar(&t) && !self.layout_engine.type_checker.is_scalar_enum(&t) {
                    let message = cat5(
                        "Semantic Error: an indexed field of event '",
                        event_name(&args[0]).as_str(),
                        "' must be one word, and '",
                        self.abi_gen.signature_type(&t).as_str(),
                        "' is not. A topic is 32 bytes, so a longer value would have to be hashed to fit. Log it unindexed.",
                    );
                    self.note_error(message);
                }
                let one = self.translate_expr(cx, e);
                let ghost ov = one@;
                out.push(one);
                assert(texts(out@) =~= before.push(ov));
            }
            i += 1;
        }
        out
    }

    fn data_of(&mut self, cx: &Ctx, args: &Vec<Expr>) -> (r: (Vec<String>, Vec<Type>))
        requires
            args@.len() > 0,
        ensures
            final(self).env() == old(self).env(),
            log_data(
                old(self).env(),
                old(self).st(),
                cx@,
                exprs_v(args@),
                (args@.len() - 1) as nat,
            ) == (final(self).st(), texts(r.0@), types_v(r.1@)),
    {
        let ghost g = self.env();
        let ghost st0 = self.st();
        let ghost av = exprs_v(args@);
        let mut out: Vec<String> = Vec::new();
        let mut ts: Vec<Type> = Vec::new();
        let mut i: usize = 1;
        assert(texts(out@) =~= Seq::<Seq<char>>::empty());
        assert(types_v(ts@) =~= Seq::<TypeV>::empty());
        while i < args.len()
            invariant
                1 <= i <= args@.len(),
                g == self.env(),
                av == exprs_v(args@),
                log_data(g, st0, cx@, av, (i - 1) as nat) == (
                    self.st(),
                    texts(out@),
                    types_v(ts@),
                ),
            decreases args@.len() - i,
        {
            let ghost before = texts(out@);
            let ghost tb = types_v(ts@);
            let (indexed, e) = log_field(&args[i]);
            assert(av[i as int] == args@[i as int]@);
            if !indexed {
                let t = self.static_type(cx, e);
                let ghost tv = t@;
                let one = self.translate_expr(cx, e);
                let ghost ov = one@;
                out.push(one);
                ts.push(t);
                assert(texts(out@) =~= before.push(ov));
                assert(types_v(ts@) =~= tb.push(tv));
            }
            i += 1;
        }
        (out, ts)
    }

    /// A statement that logs an event.
    pub(crate) fn translate_log_stmt(&mut self, cx: &Ctx, args: &Vec<Expr>) -> (r: String)
        ensures
            final(self).env() == old(self).env(),
            log_spec(old(self).env(), old(self).st(), cx@, exprs_v(args@)) == (
                final(self).st(),
                r@,
            ),
    {
        if args.len() == 0 {
            return String::from_str("/* log() requires an event argument */\n");
        }
        assert(exprs_v(args@)[0] == args@[0]@);
        let schema = self.log_shape(cx, args);
        let topic0 = keccak256_hex(schema.signature.as_str());
        let name = event_name(&args[0]);
        self.note_event(name.as_str(), schema);
        let more = self.topics_of(cx, args);
        let n: usize = more.len() + 1;
        let topics = prepend(topic0, more);
        let op = cat2("log", dec_text(n).as_str());
        let (vals, ts) = self.data_of(cx, args);
        let list = join(&topics, ", ");
        if vals.len() == 0 {
            return cat4(op.as_str(), "(0, 0, ", list.as_str(), ")\n");
        }
        let (size_src, write_src) = self.abi_arg_blob_src(&ts);
        let head = cat5(
            "{\n",
            bind_lines_text("", &vals).as_str(),
            size_src.as_str(),
            "let blob := allocate_memory(alen)\n",
            write_src.as_str(),
        );
        cat5(head.as_str(), op.as_str(), "(blob, alen, ", list.as_str(), ")\n}\n")
    }
}

} // verus!
