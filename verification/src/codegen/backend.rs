//! The back end: from the checked program to the Yul and the ABI of each of its
//! contracts.
use crate::ast::{
    clone_methods, find_method, methods_v, ClassDecl, ClassV, DeclV, Declaration, Program,
};
use crate::codegen::abi::{
    clone_inputs, entries_v, event_entry_spec, AbiEntry, AbiGenerator, EntryV,
};
use crate::codegen::deploys::{collect_deployed_contracts, methods_deploy};
use crate::codegen::entry::{context_fns, memory_fns};
use crate::codegen::generics::collect_generic_instantiations;
use crate::codegen::layout::LayoutEngine;
use crate::codegen::mutability::{analyze_class, analyze_external_calls};
use crate::codegen::object::{
    contract_env, default_text, event_entries, frame_errors, has_frames, loaded_methods,
    names_set, nest, nested_spec, nesting, object_spec, own_object, preamble_text, set_in_text,
    thunk_texts, with_frames, BuildV,
};
use crate::codegen::translator::{EventSchema, Translator};
use crate::names::NameSet;
use crate::semantic::{class_count, WorldV};
use crate::text::{cat3, cat5, cat7, cat9, clone_texts, has_text, join, same, texts};
use vstd::prelude::*;

verus! {

broadcast use crate::ast::group_views;

/// A code generator.
pub trait Backend {
    /// The name, the code and the ABI of each contract of the program.
    fn generate(&self, program: &Program, layout: &LayoutEngine) -> Result<
        Vec<(String, String, Vec<AbiEntry>)>,
        String,
    >;
}

pub struct EvmYulBackend {
    /// Whether a failing check says why it fails.
    pub rich_reverts: bool,
    /// The file that holds the committed storage layout.
    pub lock_path: Option<String>,
}

/// What a build knows.
pub open spec fn build_env(layout: &LayoutEngine, program: &Program, rich: bool) -> BuildV {
    BuildV {
        w: layout.world(),
        lay: layout.lay(),
        ds: program@,
        ext: layout.type_checker.has_external_calls,
        rich,
    }
}

/// The name, the code and the ABI of a contract.
pub open spec fn built_v(t: (String, String, Vec<AbiEntry>)) -> (Seq<char>, Seq<char>, Seq<EntryV>) {
    (t.0@, t.1@, entries_v(t.2@))
}

/// The contracts of the first `n` declarations; the first error ends the build.
pub open spec fn contracts_spec(b: BuildV, n: nat) -> Result<
    Seq<(Seq<char>, Seq<char>, Seq<EntryV>)>,
    Seq<char>,
>
    decreases n,
{
    if n == 0 || n > b.ds.len() {
        Ok(Seq::empty())
    } else {
        match contracts_spec(b, (n - 1) as nat) {
            Ok(out) => match contract_of(b, b.ds[n - 1]) {
                Some(c) => match object_spec(b, c, Seq::empty(), nesting(b.w)) {
                    Ok(o) => Ok(out.push((c.name, o.0, o.1))),
                    Err(e) => Err(e),
                },
                None => Ok(out),
            },
            Err(e) => Err(e),
        }
    }
}

/// The contract that a declaration stands for, as it was loaded.
pub open spec fn contract_of(b: BuildV, d: DeclV) -> Option<ClassV> {
    match d {
        DeclV::Class(c) => if c.is_global && c.name != "Message"@ && c.name != "Block"@ {
            Some(
                if b.w.classes.contains_key(c.name) {
                    b.w.classes[c.name]
                } else {
                    c
                },
            )
        } else {
            None
        },
        _ => None,
    }
}

proof fn lemma_contracts_err(b: BuildV, n: nat, m: nat)
    requires
        n <= m <= b.ds.len(),
        contracts_spec(b, n) is Err,
    ensures
        contracts_spec(b, m) == contracts_spec(b, n),
    decreases m - n,
{
    if n < m {
        lemma_contracts_err(b, n, (m - 1) as nat);
    }
}

proof fn lemma_nested_err(
    b: BuildV,
    names: Seq<Seq<char>>,
    stack: Seq<Seq<char>>,
    n: nat,
    m: nat,
    d: nat,
)
    requires
        n <= m <= names.len(),
        nested_spec(b, names, stack, n, d) is Err,
    ensures
        nested_spec(b, names, stack, m, d) == nested_spec(b, names, stack, n, d),
    decreases m - n,
{
    if n < m {
        lemma_nested_err(b, names, stack, n, (m - 1) as nat, d);
    }
}

fn clone_stack(stack: &Vec<String>, name: &str) -> (r: Vec<String>)
    ensures
        texts(r@) == texts(stack@).push(name@),
{
    let mut out = clone_texts(stack);
    let ghost before = texts(out@);
    out.push(String::from_str(name));
    assert(texts(out@) =~= before.push(name@));
    out
}

/// A contract with its `try` blocks moved out, the same with the functions that they
/// became, whether there are any, and what stood in the way of others.
fn scope_class(tr: &Translator, class: &ClassDecl) -> (r: (ClassDecl, ClassDecl, bool, Vec<String>))
    ensures
        r.0@ == with_frames(tr.env(), class@, false),
        r.1@ == with_frames(tr.env(), class@, true),
        r.2 == has_frames(tr.env(), class@),
        texts(r.3@) == frame_errors(tr.env(), class@),
{
    assert(methods_v(class.methods@).len() == class.methods@.len());
    let (fr, scoped) = tr.scope_fns(class.name.as_str(), &class.methods);
    let framed = fr.thunks.len() > 0;
    let mut all = clone_methods(&scoped);
    let mut blocks = fr.thunks;
    let ghost before = all@;
    let ghost more = blocks@;
    all.append(&mut blocks);
    assert(all@ =~= before + more);
    assert(methods_v(all@) =~= methods_v(before) + methods_v(more));
    let own = ClassDecl { methods: scoped, ..class.clone() };
    let full = ClassDecl { methods: all, ..class.clone() };
    (own, full, framed, fr.errors)
}

fn both(first: Vec<String>, second: Vec<String>) -> (r: Vec<String>)
    ensures
        texts(r@) == texts(first@) + texts(second@),
{
    let mut out = first;
    let mut more = second;
    let ghost a = out@;
    let ghost b = more@;
    out.append(&mut more);
    assert(out@ =~= a + b);
    assert(texts(out@) =~= texts(a) + texts(b));
    out
}

/// The entries of recorded events.
spec fn logged(events: Seq<(String, EventSchema)>) -> Seq<EntryV> {
    Seq::new(events.len(), |i: int| event_entry_spec(events[i].0@, events[i].1@.inputs))
}

fn with_events(abi: Vec<AbiEntry>, events: &Vec<(String, EventSchema)>) -> (r: Vec<AbiEntry>)
    ensures
        entries_v(r@) == entries_v(abi@) + logged(events@),
{
    let ghost first = entries_v(abi@);
    let ghost es = logged(events@);
    let mut out = abi;
    let mut i: usize = 0;
    assert(entries_v(out@) =~= first + es.take(0));
    while i < events.len()
        invariant
            i <= events@.len(),
            es == logged(events@),
            entries_v(out@) == first + es.take(i as int),
        decreases events@.len() - i,
    {
        let ghost so_far = entries_v(out@);
        let e = AbiGenerator::event_entry(
            events[i].0.as_str(),
            clone_inputs(&events[i].1.inputs),
        );
        let ghost ev = e@;
        out.push(e);
        assert(entries_v(out@) =~= so_far.push(ev));
        assert(es.take(i as int).push(es[i as int]) =~= es.take(i + 1));
        assert(entries_v(out@) =~= first + es.take(i + 1));
        i += 1;
    }
    assert(es.take(events@.len() as int) =~= es);
    out
}

impl EvmYulBackend {
    pub fn new(rich_reverts: bool) -> (r: Self)
        ensures
            r.rich_reverts == rich_reverts,
            r.lock_path is None,
    {
        EvmYulBackend { rich_reverts, lock_path: None }
    }

    pub fn with_lock(rich_reverts: bool, lock_path: Option<String>) -> (r: Self)
        ensures
            r.rich_reverts == rich_reverts,
            r.lock_path == lock_path,
    {
        EvmYulBackend { rich_reverts, lock_path }
    }

    /// The object of a contract, given the objects of those that it deploys.
    fn build_own(
        &self,
        layout: &LayoutEngine,
        program: &Program,
        class: &ClassDecl,
        nested: &str,
    ) -> (r: Result<(String, Vec<AbiEntry>), String>)
        ensures
            match r {
                Ok(o) => own_object(
                    build_env(layout, program, self.rich_reverts),
                    class@,
                    nested@,
                ) == Ok::<(Seq<char>, Seq<EntryV>), Seq<char>>((o.0@, entries_v(o.1@))),
                Err(e) => own_object(
                    build_env(layout, program, self.rich_reverts),
                    class@,
                    nested@,
                ) == Err::<(Seq<char>, Seq<EntryV>), Seq<char>>(e@),
            },
    {
        let ghost b = build_env(layout, program, self.rich_reverts);
        let ghost g = contract_env(b, class@);
        let tc = layout.type_checker;
        let ext = tc.has_external_calls;
        let name = class.name.as_str();
        let abi_gen = AbiGenerator::new(tc);
        let top = names_set(&class.methods);
        let free = NameSet::new();
        let mut tr = Translator::new(layout, &abi_gen, &top, &free, self.rich_reverts);
        assert(tr.env() == g);
        let (own, full, framed, stuck) = scope_class(&tr, class);
        let muts = analyze_class(tc, &full);
        let calls = analyze_external_calls(tc, &full);
        let methods = match tc.loaded_classes.get(name) {
            Some(c) => &c.methods,
            None => &class.methods,
        };
        assert(methods_v(methods@) == loaded_methods(b, class@));
        let ctor = match find_method(methods, "new") {
            Some(i) => {
                assert(methods_v(methods@)[i as int] == methods@[i as int]@);
                tr.constructor_call(name, &methods[i].parameters)
            },
            None => String::new(),
        };
        assert(full@.methods.len() == full.methods@.len());
        let cases = tr.cases_text(ext, &calls, &muts, &full.methods);
        let impls = tr.impls_text(ext, &calls, &muts, name, &full.methods);
        let insts = collect_generic_instantiations(program, tc);
        let classes = tr.classes_text(&own, &insts);
        let ghost before = tr.st();
        let thunks = tr.drain_helper_thunks();
        assert(texts(thunks@) =~= thunk_texts(before));
        let shared = cat5(
            impls.as_str(),
            context_fns(framed).as_str(),
            classes.as_str(),
            set_in_text(&thunks).as_str(),
            memory_fns().as_str(),
        );
        let ghost done = tr.st();
        let errors = both(stuck, tr.take_errors());
        if errors.len() > 0 {
            return Err(join(&errors, "\n"));
        }
        let head = cat7(
            "object \"",
            name,
            "\" {\n  code {\n    // --- Deployment Code ---\n",
            ctor.as_str(),
            shared.as_str(),
            tr.deploy_tail(name).as_str(),
            nested,
        );
        let most = cat9(
            head.as_str(),
            "  object \"",
            name,
            "_runtime\" {\n    code {\n      // --- Function Dispatcher ---\n",
            preamble_text(ext, &calls, &muts, &full.methods).as_str(),
            cases.as_str(),
            default_text(ext, &calls, &muts, &full.methods).as_str(),
            shared.as_str(),
            "    }\n",
        );
        let code = cat3(most.as_str(), nested, "  }\n}\n");
        let abi = abi_gen.generate_abi(program, &full, &muts);
        let events = tr.recorded_events();
        proof {
            assert(event_entries(done) =~= logged(events@));
        }
        Ok((code, with_events(abi, &events)))
    }

    /// The object of a contract: `stack` holds the contracts around it, and `d` is
    /// how many levels may still follow.
    fn build_contract_object(
        &self,
        layout: &LayoutEngine,
        program: &Program,
        class: &ClassDecl,
        stack: &Vec<String>,
        d: u128,
    ) -> (r: Result<(String, Vec<AbiEntry>), String>)
        ensures
            match r {
                Ok(o) => object_spec(
                    build_env(layout, program, self.rich_reverts),
                    class@,
                    texts(stack@),
                    d as nat,
                ) == Ok::<(Seq<char>, Seq<EntryV>), Seq<char>>((o.0@, entries_v(o.1@))),
                Err(e) => object_spec(
                    build_env(layout, program, self.rich_reverts),
                    class@,
                    texts(stack@),
                    d as nat,
                ) == Err::<(Seq<char>, Seq<EntryV>), Seq<char>>(e@),
            },
        decreases d, 0nat,
    {
        let around = clone_stack(stack, class.name.as_str());
        if has_text(stack, class.name.as_str()) || d == 0 {
            return Err(
                cat3(
                    "Deployment cycle: ",
                    join(&around, " -> ").as_str(),
                    ". A contract's creation code is embedded in whatever deploys it, so this would be infinitely large. Deploy one of them from outside, and pass its address in.",
                ),
            );
        }
        let deployed = collect_deployed_contracts(&class.methods, layout.type_checker);
        match self.build_nested(layout, program, &deployed, &around, d - 1) {
            Ok(nested) => self.build_own(layout, program, class, nested.as_str()),
            Err(e) => Err(e),
        }
    }

    /// The objects of the named contracts.
    fn build_nested(
        &self,
        layout: &LayoutEngine,
        program: &Program,
        names: &Vec<String>,
        stack: &Vec<String>,
        d: u128,
    ) -> (r: Result<String, String>)
        ensures
            match r {
                Ok(o) => nested_spec(
                    build_env(layout, program, self.rich_reverts),
                    texts(names@),
                    texts(stack@),
                    names@.len(),
                    d as nat,
                ) == Ok::<Seq<char>, Seq<char>>(o@),
                Err(e) => nested_spec(
                    build_env(layout, program, self.rich_reverts),
                    texts(names@),
                    texts(stack@),
                    names@.len(),
                    d as nat,
                ) == Err::<Seq<char>, Seq<char>>(e@),
            },
        decreases d, 1nat,
    {
        let ghost b = build_env(layout, program, self.rich_reverts);
        let ghost ns = texts(names@);
        let ghost sv = texts(stack@);
        let mut out = String::new();
        let mut i: usize = 0;
        while i < names.len()
            invariant
                i <= names@.len(),
                b == build_env(layout, program, self.rich_reverts),
                ns == texts(names@),
                sv == texts(stack@),
                nested_spec(b, ns, sv, i as nat, d as nat) == Ok::<Seq<char>, Seq<char>>(out@),
            decreases names@.len() - i,
        {
            let name = names[i].as_str();
            assert(ns[i as int] == name@);
            match layout.type_checker.loaded_classes.get(name) {
                Some(c) => {
                    assert(b.w.classes[name@] == c@);
                    match self.build_contract_object(layout, program, c, stack, d) {
                        Ok(o) => {
                            out.append(nest(o.0.as_str()).as_str());
                        },
                        Err(e) => {
                            proof {
                                lemma_nested_err(b, ns, sv, (i + 1) as nat, ns.len(), d as nat);
                            }
                            return Err(e);
                        },
                    }
                },
                None => {
                    proof {
                        lemma_nested_err(b, ns, sv, (i + 1) as nat, ns.len(), d as nat);
                    }
                    return Err(cat3("new ", name, "(...): no such contract"));
                },
            }
            i += 1;
        }
        Ok(out)
    }

    fn build_root(&self, layout: &LayoutEngine, program: &Program, class: &ClassDecl) -> (r: Result<
        (String, Vec<AbiEntry>),
        String,
    >)
        ensures
            match r {
                Ok(o) => object_spec(
                    build_env(layout, program, self.rich_reverts),
                    class@,
                    Seq::empty(),
                    nesting(layout.world()),
                ) == Ok::<(Seq<char>, Seq<EntryV>), Seq<char>>((o.0@, entries_v(o.1@))),
                Err(e) => object_spec(
                    build_env(layout, program, self.rich_reverts),
                    class@,
                    Seq::empty(),
                    nesting(layout.world()),
                ) == Err::<(Seq<char>, Seq<EntryV>), Seq<char>>(e@),
            },
    {
        let stack: Vec<String> = Vec::new();
        assert(texts(stack@) =~= Seq::<Seq<char>>::empty());
        let d: u128 = class_count(layout.type_checker) as u128 + 2;
        self.build_contract_object(layout, program, class, &stack, d)
    }
}

impl Backend for EvmYulBackend {
    fn generate(&self, program: &Program, layout: &LayoutEngine) -> (r: Result<
        Vec<(String, String, Vec<AbiEntry>)>,
        String,
    >)
        ensures
            match r {
                Ok(v) => contracts_spec(
                    build_env(layout, program, self.rich_reverts),
                    program@.len(),
                ) == Ok::<Seq<(Seq<char>, Seq<char>, Seq<EntryV>)>, Seq<char>>(
                    v@.map_values(|t: (String, String, Vec<AbiEntry>)| built_v(t)),
                ),
                Err(e) => contracts_spec(
                    build_env(layout, program, self.rich_reverts),
                    program@.len(),
                ) == Err::<Seq<(Seq<char>, Seq<char>, Seq<EntryV>)>, Seq<char>>(e@),
            },
    {
        let ghost b = build_env(layout, program, self.rich_reverts);
        let ghost f = |t: (String, String, Vec<AbiEntry>)| built_v(t);
        let ds = &program.declarations;
        let mut out: Vec<(String, String, Vec<AbiEntry>)> = Vec::new();
        let mut i: usize = 0;
        assert(out@.map_values(f) =~= Seq::empty());
        while i < ds.len()
            invariant
                i <= ds@.len(),
                *ds == program.declarations,
                b == build_env(layout, program, self.rich_reverts),
                f == (|t: (String, String, Vec<AbiEntry>)| built_v(t)),
                contracts_spec(b, i as nat) == Ok::<
                    Seq<(Seq<char>, Seq<char>, Seq<EntryV>)>,
                    Seq<char>,
                >(out@.map_values(f)),
            decreases ds@.len() - i,
        {
            let d = &ds[i];
            assert(b.ds[i as int] == d@);
            let ghost before = out@.map_values(f);
            match d {
                Declaration::Class(c) => {
                    if c.is_global && !same(c.name.as_str(), "Message") && !same(
                        c.name.as_str(),
                        "Block",
                    ) {
                        let class = match layout.type_checker.loaded_classes.get(c.name.as_str()) {
                            Some(l) => {
                                assert(b.w.classes[c.name@] == l@);
                                l
                            },
                            None => c,
                        };
                        assert(contract_of(b, d@) == Some(class@));
                        match self.build_root(layout, program, class) {
                            Ok(o) => {
                                let item = (class.name.clone(), o.0, o.1);
                                let ghost iv = built_v(item);
                                out.push(item);
                                assert(out@.map_values(f) =~= before.push(iv));
                            },
                            Err(e) => {
                                proof {
                                    lemma_contracts_err(b, (i + 1) as nat, b.ds.len());
                                }
                                return Err(e);
                            },
                        }
                    }
                },
                _ => {},
            }
            i += 1;
        }
        Ok(out)
    }
}

/// Whether the names on a stack of contracts differ, and all but the outermost are
/// loaded.
pub open spec fn proper_stack(w: WorldV, stack: Seq<Seq<char>>) -> bool {
    stack.no_duplicates() && forall|i: int|
        1 <= i < stack.len() ==> w.classes.contains_key(#[trigger] stack[i])
}

/// A proper stack is never deeper than the bound on nesting.
proof fn lemma_stack_bound(w: WorldV, stack: Seq<Seq<char>>)
    requires
        w.classes.dom().finite(),
        proper_stack(w, stack),
    ensures
        stack.len() < nesting(w),
{
    if stack.len() > 0 {
        let rest = stack.skip(1);
        assert(rest.no_duplicates());
        rest.unique_seq_to_set();
        assert forall|k: Seq<char>| rest.to_set().contains(k) implies w.classes.dom().contains(
            k,
        ) by {
            let i = choose|i: int| 0 <= i < rest.len() && rest[i] == k;
            assert(stack[i + 1] == k);
        }
        vstd::set_lib::lemma_len_subset(rest.to_set(), w.classes.dom());
    }
}

/// The bound on nesting is never what ends a build: with one more level allowed the
/// result is the same. So a contract has no object only where something in it has
/// no translation, or where it would hold its own code.
pub proof fn law_nesting_is_enough(b: BuildV, c: ClassV, stack: Seq<Seq<char>>, d: nat)
    requires
        b.w.classes.dom().finite(),
        forall|k: Seq<char>| #[trigger] b.w.classes.contains_key(k) ==> b.w.classes[k].name == k,
        proper_stack(b.w, stack),
        stack.len() > 0 ==> b.w.classes.contains_key(c.name),
        d + stack.len() >= nesting(b.w),
    ensures
        object_spec(b, c, stack, d) == object_spec(b, c, stack, d + 1),
    decreases d, 0nat,
{
    lemma_stack_bound(b.w, stack);
    if !stack.contains(c.name) {
        let inner = stack.push(c.name);
        assert(proper_stack(b.w, inner)) by {
            assert forall|i: int| 1 <= i < inner.len() implies b.w.classes.contains_key(
                #[trigger] inner[i],
            ) by {
                if i < stack.len() {
                    assert(inner[i] == stack[i]);
                }
            }
        }
        let names = methods_deploy(b.w, c.methods, c.methods.len());
        lemma_nested_enough(b, names, inner, names.len(), (d - 1) as nat);
    }
}

proof fn lemma_nested_enough(
    b: BuildV,
    names: Seq<Seq<char>>,
    stack: Seq<Seq<char>>,
    n: nat,
    d: nat,
)
    requires
        b.w.classes.dom().finite(),
        forall|k: Seq<char>| #[trigger] b.w.classes.contains_key(k) ==> b.w.classes[k].name == k,
        proper_stack(b.w, stack),
        d + stack.len() >= nesting(b.w),
    ensures
        nested_spec(b, names, stack, n, d) == nested_spec(b, names, stack, n, d + 1),
    decreases d, n,
{
    if n == 0 || n > names.len() {
    } else {
        lemma_nested_enough(b, names, stack, (n - 1) as nat, d);
        if b.w.classes.contains_key(names[n - 1]) {
            law_nesting_is_enough(b, b.w.classes[names[n - 1]], stack, d);
        }
    }
}

} // verus!
