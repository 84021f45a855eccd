//! Encoding a list of values as ABI arguments: the code that works out the size,
//! and the code that writes heads and tails.
use crate::ast::{types_v, Type, TypeV};
use crate::codegen::abi::sig_spec;
use crate::codegen::codec_src::opt_texts;
use crate::codegen::helpers::{gum_str_len_helper_src, gum_str_len_src};
use crate::codegen::tr_codec::{
    abi_dynamic, abi_head_bytes_spec, ensure_abi_dyn_struct_put_spec, ensure_abi_put_spec,
    ensure_abi_struct_put_spec,
};
use crate::codegen::translator::{ensure_spec, error_spec, EnvV, StV, Translator};
use crate::codegen::yul::{is_str_type, is_struct_type, opt_text, str_type, struct_type};
use crate::text::{cat2, cat3, cat4, cat5, cat7, cat9, dec, dec_text};
use vstd::prelude::*;

verus! {

broadcast use crate::ast::group_views;

pub open spec fn put_v(p: Option<(String, String, bool)>) -> Option<(Seq<char>, Seq<char>, bool)> {
    match p {
        Some(p) => Some((p.0@, p.1@, p.2)),
        None => None,
    }
}

pub open spec fn puts_v(s: Seq<Option<(String, String, bool)>>) -> Seq<
    Option<(Seq<char>, Seq<char>, bool)>,
> {
    Seq::new(s.len(), |i: int| put_v(s[i]))
}

pub open spec fn pair_v(p: Option<(String, String)>) -> Option<(Seq<char>, Seq<char>)> {
    match p {
        Some(p) => Some((p.0@, p.1@)),
        None => None,
    }
}

pub open spec fn pairs_v(s: Seq<Option<(String, String)>>) -> Seq<Option<(Seq<char>, Seq<char>)>> {
    Seq::new(s.len(), |i: int| pair_v(s[i]))
}

/// The encoder of a static tuple.
#[verifier::opaque]
pub open spec fn struct_put_of_spec(g: EnvV, st: StV, t: TypeV) -> (StV, Option<Seq<char>>) {
    match t {
        TypeV::Primitive(n) => {
            if struct_type(g.w, t) {
                let (st, found) = ensure_abi_struct_put_spec(g, st, n);
                match found {
                    Some((h, _)) => (st, Some(h)),
                    None => (st, None),
                }
            } else {
                (st, None)
            }
        },
        _ => (st, None),
    }
}

impl<'a> Translator<'a> {
    pub(crate) fn struct_put_of(&mut self, t: &Type) -> (r: Option<String>)
        ensures
            final(self).env() == old(self).env(),
            struct_put_of_spec(
                old(self).env(),
                old(self).st(),
                t@,
            ) == (final(self).st(), opt_text(r)),
    {
        proof {
            reveal(struct_put_of_spec);
        }
        match t {
            Type::Primitive(n) => {
                if is_struct_type(self.layout_engine.type_checker, t) {
                    let found = self.ensure_abi_struct_put(n.as_str());
                    match found {
                        Some((h, _)) => {
                            return Some(h);
                        },
                        None => {
                            return None;
                        },
                    }
                }
                None
            },
            _ => None,
        }
    }
}

/// The encoder of an array, its size function, and whether it has a tail.
#[verifier::opaque]
pub open spec fn array_put_of_spec(
    g: EnvV,
    st: StV,
    t: TypeV,
) -> (StV, Option<(Seq<char>, Seq<char>, bool)>) {
    if t is Array || t is FixedArray {
        let (st, found) = ensure_abi_put_spec(g, st, t);
        match found {
            Some((p, s)) => (st, Some((p, s, abi_dynamic(g.w, t)))),
            None => {
                let st = error_spec(
                    st,
                    "an array of type '"@ + sig_spec(g.aw, t) + "' has no ABI encoding."@,
                );
                (st, None)
            },
        }
    } else {
        (st, None)
    }
}

impl<'a> Translator<'a> {
    pub(crate) fn array_put_of(&mut self, t: &Type) -> (r: Option<(String, String, bool)>)
        ensures
            final(self).env() == old(self).env(),
            array_put_of_spec(old(self).env(), old(self).st(), t@) == (
                final(self).st(),
                (match r { Some(x) => Some((x.0@, x.1@, x.2)), None => None }),
            ),
    {
        proof {
            reveal(array_put_of_spec);
        }
        if matches!(t, Type::Array(..) | Type::FixedArray(..)) {
            let found = self.ensure_abi_put(t);
            match found {
                Some((p, s)) => {
                    return Some((p, s, self.abi_is_dynamic(t)));
                },
                None => {
                    self.note_error(
                        cat3(
                            "an array of type '",
                            self.abi_gen.signature_type(t).as_str(),
                            "' has no ABI encoding.",
                        )
                    );
                    return None;
                },
            }
        }
        None
    }
}

/// The encoder of a dynamic tuple, and its size function.
#[verifier::opaque]
pub open spec fn dyn_struct_put_of_spec(
    g: EnvV,
    st: StV,
    t: TypeV,
) -> (StV, Option<(Seq<char>, Seq<char>)>) {
    match t {
        TypeV::Primitive(n) => {
            if struct_type(g.w, t) && abi_dynamic(g.w, t) {
                ensure_abi_dyn_struct_put_spec(g, st, n)
            } else {
                (st, None)
            }
        },
        _ => (st, None),
    }
}

impl<'a> Translator<'a> {
    pub(crate) fn dyn_struct_put_of(&mut self, t: &Type) -> (r: Option<(String, String)>)
        ensures
            final(self).env() == old(self).env(),
            dyn_struct_put_of_spec(old(self).env(), old(self).st(), t@) == (
                final(self).st(),
                (match r { Some(x) => Some((x.0@, x.1@)), None => None }),
            ),
    {
        proof {
            reveal(dyn_struct_put_of_spec);
        }
        match t {
            Type::Primitive(n) => {
                if is_struct_type(self.layout_engine.type_checker, t) && self.abi_is_dynamic(t) {
                    return self.ensure_abi_dyn_struct_put(n.as_str());
                }
                None
            },
            _ => None,
        }
    }
}

/// The encoders of the static tuples among the first `n` types.
pub open spec fn struct_puts(g: EnvV, st: StV, ts: Seq<TypeV>, n: nat) -> (StV, Seq<Option<Seq<char>>>)
    decreases n,
{
    if n == 0 {
        (st, Seq::empty())
    } else {
        let (st, out) = struct_puts(g, st, ts, (n - 1) as nat);
        let (st, one) = struct_put_of_spec(g, st, ts[n - 1]);
        (st, out.push(one))
    }
}

impl<'a> Translator<'a> {
    fn struct_puts_list(&mut self, ts: &Vec<Type>) -> (r: Vec<Option<String>>)
        ensures
            final(self).env() == old(self).env(),
            struct_puts(old(self).env(), old(self).st(), types_v(ts@), ts@.len()) == (
                final(self).st(),
                opt_texts(r@),
            ),
            r@.len() == ts@.len(),
    {
        let ghost g = self.env();
        let ghost st0 = self.st();
        let mut out: Vec<Option<String>> = Vec::new();
        let mut i: usize = 0;
        assert(opt_texts(out@) =~= Seq::<Option<Seq<char>>>::empty());
        while i < ts.len()
            invariant
                i <= ts@.len(),
                g == old(self).env(),
                st0 == old(self).st(),
                self.env() == g,
                out@.len() == i,
                struct_puts(g, st0, types_v(ts@), i as nat) == (self.st(), opt_texts(out@)),
            decreases ts@.len() - i,
        {
            let ghost before = opt_texts(out@);
            let one = self.struct_put_of(&ts[i]);
            let ghost ov = opt_text(one);
            out.push(one);
            assert(opt_texts(out@) =~= before.push(ov));
            assert(types_v(ts@)[i as int] == ts@[i as int]@);
            i += 1;
        }
        out
    }
}

/// The encoders of the arrays among the first `n` types, with their size functions
/// and whether they have a tail.
pub open spec fn array_puts(g: EnvV, st: StV, ts: Seq<TypeV>, n: nat) -> (StV, Seq<Option<(Seq<char>, Seq<char>, bool)>>)
    decreases n,
{
    if n == 0 {
        (st, Seq::empty())
    } else {
        let (st, out) = array_puts(g, st, ts, (n - 1) as nat);
        let (st, one) = array_put_of_spec(g, st, ts[n - 1]);
        (st, out.push(one))
    }
}

impl<'a> Translator<'a> {
    fn array_puts_list(&mut self, ts: &Vec<Type>) -> (r: Vec<Option<(String, String, bool)>>)
        ensures
            final(self).env() == old(self).env(),
            array_puts(old(self).env(), old(self).st(), types_v(ts@), ts@.len()) == (
                final(self).st(),
                puts_v(r@),
            ),
            r@.len() == ts@.len(),
    {
        let ghost g = self.env();
        let ghost st0 = self.st();
        let mut out: Vec<Option<(String, String, bool)>> = Vec::new();
        let mut i: usize = 0;
        assert(puts_v(out@) =~= Seq::<Option<(Seq<char>, Seq<char>, bool)>>::empty());
        while i < ts.len()
            invariant
                i <= ts@.len(),
                g == old(self).env(),
                st0 == old(self).st(),
                self.env() == g,
                out@.len() == i,
                array_puts(g, st0, types_v(ts@), i as nat) == (self.st(), puts_v(out@)),
            decreases ts@.len() - i,
        {
            let ghost before = puts_v(out@);
            let one = self.array_put_of(&ts[i]);
            let ghost ov = put_v(one);
            out.push(one);
            assert(puts_v(out@) =~= before.push(ov));
            assert(types_v(ts@)[i as int] == ts@[i as int]@);
            i += 1;
        }
        out
    }
}

/// The encoders of the dynamic tuples among the first `n` types, with their size
/// functions.
pub open spec fn dyn_struct_puts(g: EnvV, st: StV, ts: Seq<TypeV>, n: nat) -> (StV, Seq<Option<(Seq<char>, Seq<char>)>>)
    decreases n,
{
    if n == 0 {
        (st, Seq::empty())
    } else {
        let (st, out) = dyn_struct_puts(g, st, ts, (n - 1) as nat);
        let (st, one) = dyn_struct_put_of_spec(g, st, ts[n - 1]);
        (st, out.push(one))
    }
}

impl<'a> Translator<'a> {
    fn dyn_struct_puts_list(&mut self, ts: &Vec<Type>) -> (r: Vec<Option<(String, String)>>)
        ensures
            final(self).env() == old(self).env(),
            dyn_struct_puts(old(self).env(), old(self).st(), types_v(ts@), ts@.len()) == (
                final(self).st(),
                pairs_v(r@),
            ),
            r@.len() == ts@.len(),
    {
        let ghost g = self.env();
        let ghost st0 = self.st();
        let mut out: Vec<Option<(String, String)>> = Vec::new();
        let mut i: usize = 0;
        assert(pairs_v(out@) =~= Seq::<Option<(Seq<char>, Seq<char>)>>::empty());
        while i < ts.len()
            invariant
                i <= ts@.len(),
                g == old(self).env(),
                st0 == old(self).st(),
                self.env() == g,
                out@.len() == i,
                dyn_struct_puts(g, st0, types_v(ts@), i as nat) == (self.st(), pairs_v(out@)),
            decreases ts@.len() - i,
        {
            let ghost before = pairs_v(out@);
            let one = self.dyn_struct_put_of(&ts[i]);
            let ghost ov = pair_v(one);
            out.push(one);
            assert(pairs_v(out@) =~= before.push(ov));
            assert(types_v(ts@)[i as int] == ts@[i as int]@);
            i += 1;
        }
        out
    }
}

/// The size of the heads of the first `n` types.
pub open spec fn head_total(g: EnvV, ts: Seq<TypeV>, n: nat) -> usize
    decreases n,
{
    if n == 0 {
        0
    } else {
        head_total(g, ts, (n - 1) as nat).wrapping_add(abi_head_bytes_spec(g, ts[n - 1]))
    }
}

/// Whether one of the types has a tail.
pub open spec fn any_tail(g: EnvV, ts: Seq<TypeV>) -> bool {
    exists|i: int| 0 <= i < ts.len() && has_tail(g, #[trigger] ts[i])
}

pub open spec fn has_tail(g: EnvV, t: TypeV) -> bool {
    str_type(t) || abi_dynamic(g.w, t)
}

/// Whether one of the types is a string.
pub open spec fn any_str(ts: Seq<TypeV>) -> bool {
    exists|i: int| 0 <= i < ts.len() && str_type(#[trigger] ts[i])
}

impl<'a> Translator<'a> {
    pub fn head_bytes(&self, ts: &Vec<Type>) -> (r: usize)
        ensures
            r == head_total(self.env(), types_v(ts@), ts@.len()),
    {
        let mut total: usize = 0;
        let mut i: usize = 0;
        while i < ts.len()
            invariant
                i <= ts@.len(),
                total == head_total(self.env(), types_v(ts@), i as nat),
            decreases ts@.len() - i,
        {
            assert(types_v(ts@)[i as int] == ts@[i as int]@);
            total = total.wrapping_add(self.abi_head_bytes(&ts[i]));
            i += 1;
        }
        total
    }

    fn some_tail(&self, ts: &Vec<Type>) -> (r: bool)
        ensures
            r == any_tail(self.env(), types_v(ts@)),
    {
        let mut i: usize = 0;
        while i < ts.len()
            invariant
                i <= ts@.len(),
                forall|k: int| 0 <= k < i ==> !has_tail(self.env(), #[trigger] types_v(ts@)[k]),
            decreases ts@.len() - i,
        {
            if is_str_type(&ts[i]) || self.abi_is_dynamic(&ts[i]) {
                assert(has_tail(self.env(), types_v(ts@)[i as int]));
                return true;
            }
            i += 1;
        }
        false
    }
}

fn some_str(ts: &Vec<Type>) -> (r: bool)
    ensures
        r == any_str(types_v(ts@)),
{
    let mut i: usize = 0;
    while i < ts.len()
        invariant
            i <= ts@.len(),
            forall|k: int| 0 <= k < i ==> !str_type(#[trigger] types_v(ts@)[k]),
        decreases ts@.len() - i,
    {
        if is_str_type(&ts[i]) {
            assert(str_type(types_v(ts@)[i as int]));
            return true;
        }
        i += 1;
    }
    false
}

/// Adds the tail of argument `i` to the size.
pub open spec fn size_line_spec(
    i: usize,
    t: TypeV,
    arr: Option<(Seq<char>, Seq<char>, bool)>,
    dst: Option<(Seq<char>, Seq<char>)>,
) -> Seq<char> {
    if str_type(t) {
        "    let a"@ + dec(
            i as nat
        ) + "_len := gum_str_len(a"@ + dec(i as nat) + ")\n    let a"@ + dec(i as nat) + "_pad := and(add(a"@ + dec(i as nat) + "_len, 31), not(31))\n    alen := add(alen, add(32, a"@ + dec(i as nat) + "_pad))\n"@
    } else {
        match arr {
            Some((_, size_fn, dynamic)) => {
                if dynamic {
                    "    let a"@ + dec(
                        i as nat
                    ) + "_abi := "@ + size_fn + "(a"@ + dec(i as nat) + ")\n    alen := add(alen, a"@ + dec(i as nat) + "_abi)\n"@
                } else {
                    ""@
                }
            },
            None => {
                match dst {
                    Some(
                        (_, size_fn)
                    ) => "    let a"@ + dec(i as nat) + "_abi := "@ + size_fn + "(a"@ + dec(i as nat) + ")\n    alen := add(alen, a"@ + dec(i as nat) + "_abi)\n"@,
                    None => ""@,
                }
            },
        }
    }
}

pub(crate) fn size_line(
    i: usize,
    t: &Type,
    arr: &Option<(String, String, bool)>,
    dst: &Option<(String, String)>,
) -> (r: String)
    ensures
        r@ == size_line_spec(
            i,
            t@,
            (match *arr { Some(x) => Some((x.0@, x.1@, x.2)), None => None }),
            (match *dst { Some(x) => Some((x.0@, x.1@)), None => None }),
        ),
{
    if is_str_type(t) {
        return cat3(
            cat9(
                "    let a",
                dec_text(i).as_str(),
                "_len := gum_str_len(a",
                dec_text(i).as_str(),
                ")\n    let a",
                dec_text(i).as_str(),
                "_pad := and(add(a",
                dec_text(i).as_str(),
                "_len, 31), not(31))\n    alen := add(alen, add(32, a",
            ).as_str(),
            dec_text(i).as_str(),
            "_pad))\n",
        );
    }
    match arr {
        Some((_, size_fn, dynamic)) => {
            if *dynamic {
                return cat9(
                    "    let a",
                    dec_text(i).as_str(),
                    "_abi := ",
                    size_fn.as_str(),
                    "(a",
                    dec_text(i).as_str(),
                    ")\n    alen := add(alen, a",
                    dec_text(i).as_str(),
                    "_abi)\n",
                );
            }
            return String::from_str("");
        },
        None => {},
    }
    match dst {
        Some((_, size_fn)) => cat9(
            "    let a",
            dec_text(i).as_str(),
            "_abi := ",
            size_fn.as_str(),
            "(a",
            dec_text(i).as_str(),
            ")\n    alen := add(alen, a",
            dec_text(i).as_str(),
            "_abi)\n",
        ),
        None => String::from_str(""),
    }
}

/// Writes argument `i`, whose head stands at `at`.
pub open spec fn write_line_spec(
    i: usize,
    t: TypeV,
    at: usize,
    arr: Option<(Seq<char>, Seq<char>, bool)>,
    dst: Option<(Seq<char>, Seq<char>)>,
    stc: Option<Seq<char>>,
) -> Seq<char> {
    if str_type(t) {
        "    mstore(add(blob, "@ + dec(
            at as nat
        ) + "), tail)\n    mstore(add(blob, tail), a"@ + dec(i as nat) + "_len)\n    gum_memory_copy(add(a"@ + dec(i as nat) + ", 32), add(add(blob, tail), 32), a"@ + dec(i as nat) + "_len)\n    tail := add(tail, add(32, a"@ + dec(i as nat) + "_pad))\n"@
    } else {
        match arr {
            Some((put, _, dynamic)) => {
                if dynamic {
                    "    mstore(add(blob, "@ + dec(
                        at as nat
                    ) + "), tail)\n    tail := add(tail, "@ + put + "(add(blob, tail), a"@ + dec(i as nat) + "))\n"@
                } else {
                    "    pop("@ + put + "(add(blob, "@ + dec(
                        at as nat
                    ) + "), a"@ + dec(i as nat) + "))\n"@
                }
            },
            None => {
                match dst {
                    Some((put, _)) => "    mstore(add(blob, "@ + dec(
                        at as nat
                    ) + "), tail)\n    tail := add(tail, "@ + put + "(add(blob, tail), a"@ + dec(i as nat) + "))\n"@,
                    None => {
                        match stc {
                            Some(helper) => "    "@ + helper + "(add(blob, "@ + dec(
                                at as nat
                            ) + "), a"@ + dec(i as nat) + ")\n"@,
                            None => "    mstore(add(blob, "@ + dec(
                                at as nat
                            ) + "), a"@ + dec(i as nat) + ")\n"@,
                        }
                    },
                }
            },
        }
    }
}

pub(crate) fn write_line(
    i: usize,
    t: &Type,
    at: usize,
    arr: &Option<(String, String, bool)>,
    dst: &Option<(String, String)>,
    stc: &Option<String>,
) -> (r: String)
    ensures
        r@ == write_line_spec(
            i,
            t@,
            at,
            (match *arr { Some(x) => Some((x.0@, x.1@, x.2)), None => None }),
            (match *dst { Some(x) => Some((x.0@, x.1@)), None => None }),
            opt_text(*stc),
        ),
{
    if is_str_type(t) {
        return cat3(
            cat9(
                "    mstore(add(blob, ",
                dec_text(at).as_str(),
                "), tail)\n    mstore(add(blob, tail), a",
                dec_text(i).as_str(),
                "_len)\n    gum_memory_copy(add(a",
                dec_text(i).as_str(),
                ", 32), add(add(blob, tail), 32), a",
                dec_text(i).as_str(),
                "_len)\n    tail := add(tail, add(32, a",
            ).as_str(),
            dec_text(i).as_str(),
            "_pad))\n",
        );
    }
    match arr {
        Some((put, _, dynamic)) => {
            if *dynamic {
                return cat7(
                    "    mstore(add(blob, ",
                    dec_text(at).as_str(),
                    "), tail)\n    tail := add(tail, ",
                    put.as_str(),
                    "(add(blob, tail), a",
                    dec_text(i).as_str(),
                    "))\n",
                );
            }
            return cat7(
                "    pop(",
                put.as_str(),
                "(add(blob, ",
                dec_text(at).as_str(),
                "), a",
                dec_text(i).as_str(),
                "))\n",
            );
        },
        None => {},
    }
    match dst {
        Some((put, _)) => {
            return cat7(
                "    mstore(add(blob, ",
                dec_text(at).as_str(),
                "), tail)\n    tail := add(tail, ",
                put.as_str(),
                "(add(blob, tail), a",
                dec_text(i).as_str(),
                "))\n",
            );
        },
        None => {},
    }
    match stc {
        Some(helper) => cat7(
            "    ",
            helper.as_str(),
            "(add(blob, ",
            dec_text(at).as_str(),
            "), a",
            dec_text(i).as_str(),
            ")\n",
        ),
        None => cat5(
            "    mstore(add(blob, ",
            dec_text(at).as_str(),
            "), a",
            dec_text(i).as_str(),
            ")\n",
        ),
    }
}

/// The size code of the first `n` arguments.
pub open spec fn size_lines(
    ts: Seq<TypeV>,
    arr: Seq<Option<(Seq<char>, Seq<char>, bool)>>,
    dst: Seq<Option<(Seq<char>, Seq<char>)>>,
    n: nat,
) -> Seq<char>
    decreases n,
{
    if n == 0 {
        Seq::empty()
    } else {
        size_lines(ts, arr, dst, (n - 1) as nat) + size_line_spec(
            (n - 1) as usize,
            ts[n - 1],
            arr[n - 1],
            dst[n - 1],
        )
    }
}

/// The writing code of the first `n` arguments.
pub open spec fn write_lines(
    g: EnvV,
    ts: Seq<TypeV>,
    arr: Seq<Option<(Seq<char>, Seq<char>, bool)>>,
    dst: Seq<Option<(Seq<char>, Seq<char>)>>,
    stc: Seq<Option<Seq<char>>>,
    n: nat,
) -> Seq<char>
    decreases n,
{
    if n == 0 {
        Seq::empty()
    } else {
        write_lines(g, ts, arr, dst, stc, (n - 1) as nat) + write_line_spec(
            (n - 1) as usize,
            ts[n - 1],
            head_total(g, ts, (n - 1) as nat),
            arr[n - 1],
            dst[n - 1],
            stc[n - 1],
        )
    }
}

/// The code that sets `alen` to the size of the arguments `a0`, `a1`, ..., and
/// the code that writes them to `blob`.
#[verifier::opaque]
pub open spec fn blob_spec(g: EnvV, st: StV, ts: Seq<TypeV>) -> (StV, (Seq<char>, Seq<char>)) {
    let st = if any_str(ts) {
        ensure_spec(st, "gum_str_len"@, gum_str_len_src())
    } else {
        st
    };
    let (st, stc) = struct_puts(g, st, ts, ts.len());
    let (st, arr) = array_puts(g, st, ts, ts.len());
    let (st, dst) = dyn_struct_puts(g, st, ts, ts.len());
    let total = dec(head_total(g, ts, ts.len()) as nat);
    let size = "    let alen := "@ + total + "\n"@ + size_lines(ts, arr, dst, ts.len());
    let tail = if any_tail(g, ts) {
        "    let tail := "@ + total + "\n"@
    } else {
        Seq::empty()
    };
    (st, (size, tail + write_lines(g, ts, arr, dst, stc, ts.len())))
}

impl<'a> Translator<'a> {
    pub fn abi_arg_blob_src(&mut self, types: &Vec<Type>) -> (r: (String, String))
        ensures
            final(self).env() == old(self).env(),
            blob_spec(old(self).env(), old(self).st(), types_v(types@)) == (
                final(self).st(),
                (r.0@, r.1@),
            ),
    {
        proof {
            reveal(blob_spec);
        }
        let ghost g = self.env();
        let ghost ts = types_v(types@);
        if some_str(types) {
            self.ensure_helper("gum_str_len", gum_str_len_helper_src());
        }
        let stc = self.struct_puts_list(types);
        let arr = self.array_puts_list(types);
        let dst = self.dyn_struct_puts_list(types);
        let total = dec_text(self.head_bytes(types));
        let mut sizes = String::new();
        let mut writes = String::new();
        let mut at: usize = 0;
        let mut i: usize = 0;
        while i < types.len()
            invariant
                i <= types@.len(),
                self.env() == g,
                ts == types_v(types@),
                arr@.len() == types@.len(),
                dst@.len() == types@.len(),
                stc@.len() == types@.len(),
                at == head_total(g, ts, i as nat),
                sizes@ == size_lines(ts, puts_v(arr@), pairs_v(dst@), i as nat),
                writes@ == write_lines(
                    g,
                    ts,
                    puts_v(arr@),
                    pairs_v(dst@),
                    opt_texts(stc@),
                    i as nat,
                ),
            decreases types@.len() - i,
        {
            assert(ts[i as int] == types@[i as int]@);
            sizes.append(size_line(i, &types[i], &arr[i], &dst[i]).as_str());
            writes.append(write_line(i, &types[i], at, &arr[i], &dst[i], &stc[i]).as_str());
            at = at.wrapping_add(self.abi_head_bytes(&types[i]));
            i += 1;
        }
        let tail = if self.some_tail(types) {
            cat3("    let tail := ", total.as_str(), "\n")
        } else {
            String::new()
        };
        (
            cat4("    let alen := ", total.as_str(), "\n", sizes.as_str()),
            cat2(tail.as_str(), writes.as_str()),
        )
    }
}

} // verus!
