//! The check of a whole program: as many independent errors as one pass can find, one
//! at most for each function body.
use crate::ast::{
    body_v, decls_v, opt_type_v, params_v, ClassDecl, ClassV, DeclV, Declaration, FnDecl, FnV,
    ParamV, Parameter, Program, Type, TypeV,
};
use crate::codegen::yul::opt_text;
use crate::semantic::{type_map_v, SemV, SymbolInfo, SymbolV, TypeChecker, WorldV};
use crate::semantic::inherit::flatten_world;
use crate::semantic::modules::{copy_decls, missing_symbols, Imports, ImportsV};
use crate::semantic::paths::body_returns;
use crate::semantic::rules::{
    abi_errors, const_errors, const_rules, layout_errors, plain_errors, plain_rules, push_opt,
    repeat_errors, repeat_rules, special_errors, special_rules, with_opt,
};
use crate::semantic::spell::{debug_type, debugged};
use crate::semantic::verify::{body_check, lemma_outer_kept, local_spec, sem_of, ChkV, FnEnvV};
use crate::text::{cat3, cat5, cat7, clone_texts, has_text, texts};
use vstd::prelude::*;

verus! {

broadcast use crate::ast::group_views;

/// How far the check of the bodies has come.
pub struct RunV {
    /// The return type of the function that was verified last.
    pub ret: Option<TypeV>,
    pub st: ChkV,
    pub errors: Seq<Seq<char>>,
}

/// The innermost scope with the first `n` parameters; they do not change unless they
/// are declared `mut`.
pub open spec fn with_params(st: ChkV, ps: Seq<ParamV>, n: nat) -> ChkV
    decreases n,
{
    if n == 0 {
        st
    } else {
        local_spec(
            with_params(st, ps, (n - 1) as nat),
            ps[n - 1].name,
            !ps[n - 1].is_mut,
            ps[n - 1].type_def,
        )
    }
}

/// The scopes in which a body is verified.
pub open spec fn entry_scopes(st: ChkV, f: FnV, owner: Option<Seq<char>>) -> ChkV {
    let st = ChkV { sc: st.sc.push(Map::empty()), ..st };
    let st = match owner {
        Some(c) => local_spec(st, "self"@, true, TypeV::Primitive(c)),
        None => st,
    };
    with_params(st, f.parameters, f.parameters.len())
}

pub open spec fn no_return(f: FnV, owner: Option<Seq<char>>, t: TypeV) -> Seq<char> {
    match owner {
        Some(c) => "Semantic Error: Method '"@ + c + "."@ + f.name + "' promises to return "@
            + debugged(t) + ", but does not guarantee a return on all paths."@,
        None => "Semantic Error: Function '"@ + f.name + "' promises to return "@ + debugged(t)
            + ", but does not guarantee a return on all paths."@,
    }
}

/// What is wrong with the paths of a function whose statements are in order.
pub open spec fn path_error(g: SemV, f: FnV, owner: Option<Seq<char>>) -> Option<Seq<char>> {
    match f.return_type {
        None => None,
        Some(t) => match body_returns(g, f.body, t, 0) {
            Ok(done) => if done {
                None
            } else {
                Some(no_return(f, owner, t))
            },
            Err(e) => Some(e),
        },
    }
}

/// A function or method is verified in a scope of its own; one error at most is
/// reported.
pub open spec fn fn_run(w: WorldV, run: RunV, f: FnV, owner: Option<Seq<char>>) -> RunV {
    let g = FnEnvV { w, ret: f.return_type };
    let (out, r) = body_check(g, entry_scopes(run.st, f, owner), f.body, f.body.len());
    RunV {
        ret: f.return_type,
        st: ChkV { sc: run.st.sc, ext: out.ext },
        errors: match r {
            Err(e) => run.errors.push(e),
            Ok(_) => with_opt(run.errors, path_error(sem_of(g, out), f, owner)),
        },
    }
}

/// The functions among the first `n` declarations are verified.
pub open spec fn fns_run(w: WorldV, run: RunV, ds: Seq<DeclV>, n: nat) -> RunV
    decreases n,
{
    if n == 0 {
        run
    } else {
        let run = fns_run(w, run, ds, (n - 1) as nat);
        match ds[n - 1] {
            DeclV::Function(f) => fn_run(w, run, f, None),
            _ => run,
        }
    }
}

/// The first `n` methods of a class are verified; one without a body is only a
/// signature.
pub open spec fn methods_run(w: WorldV, run: RunV, class: Seq<char>, c: ClassV, n: nat) -> RunV
    decreases n,
{
    if n == 0 {
        run
    } else {
        let run = methods_run(w, run, class, c, (n - 1) as nat);
        if c.methods[n - 1].body.len() == 0 {
            run
        } else {
            fn_run(w, run, c.methods[n - 1], Some(class))
        }
    }
}

/// The methods of the first `n` classes are verified.
pub open spec fn classes_run(w: WorldV, run: RunV, n: nat) -> RunV
    decreases n,
{
    if n == 0 {
        run
    } else {
        let run = classes_run(w, run, (n - 1) as nat);
        let name = w.class_order[n - 1];
        if w.classes.contains_key(name) {
            let c = w.classes[name];
            methods_run(
                w,
                RunV { errors: run.errors + special_errors(name, c), ..run },
                name,
                c,
                c.methods.len(),
            )
        } else {
            run
        }
    }
}

/// The rules that every class is held to.
#[derive(Clone, Copy)]
pub enum ClassRule {
    Layout,
    Abi,
    Plain,
    Const,
    Repeat,
}

pub open spec fn rule_errors(g: SemV, k: ClassRule, name: Seq<char>, c: ClassV) -> Seq<Seq<char>> {
    match k {
        ClassRule::Layout => layout_errors(g, name, c),
        ClassRule::Abi => abi_errors(g, name, c, c.methods.len()),
        ClassRule::Plain => plain_errors(name, c),
        ClassRule::Const => const_errors(name, c),
        ClassRule::Repeat => repeat_errors(name, c, c.methods.len()),
    }
}

/// What is wrong with the first `n` classes by one rule.
pub open spec fn rule_run(g: SemV, k: ClassRule, errors: Seq<Seq<char>>, n: nat) -> Seq<Seq<char>>
    decreases n,
{
    if n == 0 {
        errors
    } else {
        let out = rule_run(g, k, errors, (n - 1) as nat);
        let name = g.w.class_order[n - 1];
        if g.w.classes.contains_key(name) {
            out + rule_errors(g, k, name, g.w.classes[name])
        } else {
            out
        }
    }
}

/// What is wrong with the classes by any of the rules.
pub open spec fn rules_run(g: SemV, errors: Seq<Seq<char>>) -> Seq<Seq<char>> {
    let n = g.w.class_order.len();
    let errors = rule_run(g, ClassRule::Layout, errors, n);
    let errors = rule_run(g, ClassRule::Abi, errors, n);
    let errors = rule_run(g, ClassRule::Plain, errors, n);
    let errors = rule_run(g, ClassRule::Const, errors, n);
    rule_run(g, ClassRule::Repeat, errors, n)
}

/// The return types of the first `n` functions become known.
pub open spec fn known_types(w: WorldV, ds: Seq<DeclV>, n: nat) -> WorldV
    decreases n,
{
    if n == 0 {
        w
    } else {
        let w = known_types(w, ds, (n - 1) as nat);
        match ds[n - 1] {
            DeclV::Function(f) => match f.return_type {
                Some(t) => WorldV { fn_types: w.fn_types.insert(f.name, t), ..w },
                None => w,
            },
            _ => w,
        }
    }
}

pub open spec fn stray_export(d: DeclV) -> Option<Seq<char>> {
    match d {
        DeclV::Function(f) => if f.modifiers.contains("export"@) {
            Some(
                "Semantic Error: top-level function '"@ + f.name
                    + "' cannot be marked export. Entry points must be declared inside a contract block."@,
            )
        } else {
            None
        },
        _ => None,
    }
}

/// Which of the first `n` declarations are exported outside of a contract.
pub open spec fn stray_exports(errors: Seq<Seq<char>>, ds: Seq<DeclV>, n: nat) -> Seq<Seq<char>>
    decreases n,
{
    if n == 0 {
        errors
    } else {
        with_opt(stray_exports(errors, ds, (n - 1) as nat), stray_export(ds[n - 1]))
    }
}

/// The world that a program is checked in: inheritance is resolved, and functions
/// are known.
pub open spec fn checked_world(w: WorldV, ds: Seq<DeclV>) -> WorldV {
    known_types(flatten_world(w).0, ds, ds.len())
}

/// The whole check. `ds` are the declarations of the program, then those imported.
pub open spec fn check_spec(
    w: WorldV,
    ret: Option<TypeV>,
    st: ChkV,
    im: ImportsV,
    ds: Seq<DeclV>,
) -> RunV {
    let errors = im.errors + missing_symbols(im, im.requested.len()) + flatten_world(w).1;
    let errors = stray_exports(errors, ds, ds.len());
    let w = checked_world(w, ds);
    let run = fns_run(w, RunV { ret, st, errors }, ds, ds.len());
    let run = RunV { errors: rules_run(SemV { w, sc: run.st.sc }, run.errors), ..run };
    classes_run(w, run, w.class_order.len())
}

proof fn lemma_params_keep_outer(st: ChkV, ps: Seq<ParamV>, n: nat)
    requires
        st.sc.len() > 0,
        n <= ps.len(),
    ensures
        with_params(st, ps, n).sc.len() == st.sc.len(),
        with_params(st, ps, n).sc.drop_last() == st.sc.drop_last(),
        with_params(st, ps, n).ext == st.ext,
    decreases n,
{
    if n > 0 {
        lemma_params_keep_outer(st, ps, (n - 1) as nat);
        let a = with_params(st, ps, (n - 1) as nat);
        assert(with_params(st, ps, n).sc.drop_last() =~= a.sc.drop_last());
    }
}

proof fn lemma_entry_keeps_outer(st: ChkV, f: FnV, owner: Option<Seq<char>>)
    ensures
        entry_scopes(st, f, owner).sc.len() == st.sc.len() + 1,
        entry_scopes(st, f, owner).sc.drop_last() == st.sc,
{
    let a = ChkV { sc: st.sc.push(Map::empty()), ..st };
    assert(a.sc.drop_last() =~= st.sc);
    let b = match owner {
        Some(c) => local_spec(a, "self"@, true, TypeV::Primitive(c)),
        None => a,
    };
    assert(b.sc.drop_last() =~= st.sc);
    lemma_params_keep_outer(b, f.parameters, f.parameters.len());
}

fn append_all(out: &mut Vec<String>, more: Vec<String>)
    ensures
        texts(final(out)@) == texts(old(out)@) + texts(more@),
{
    let mut more = more;
    let ghost a = texts(out@);
    let ghost b = texts(more@);
    out.append(&mut more);
    assert(texts(out@) =~= a + b);
}

pub open spec fn opt_name(o: Option<&str>) -> Option<Seq<char>> {
    match o {
        Some(s) => Some(s@),
        None => None,
    }
}

impl TypeChecker {
    pub open spec fn run(&self, errors: Seq<String>) -> RunV {
        RunV {
            ret: opt_type_v(self.current_return_type),
            st: self.chk(),
            errors: texts(errors),
        }
    }

    fn declare_params(&mut self, ps: &Vec<Parameter>)
        ensures
            final(self).fn_env() == old(self).fn_env(),
            final(self).chk() == with_params(old(self).chk(), params_v(ps@), ps@.len()),
    {
        let ghost st0 = self.chk();
        let ghost pv = params_v(ps@);
        let mut i: usize = 0;
        while i < ps.len()
            invariant
                i <= ps@.len(),
                pv == params_v(ps@),
                self.fn_env() == old(self).fn_env(),
                self.chk() == with_params(st0, pv, i as nat),
            decreases ps@.len() - i,
        {
            let p = &ps[i];
            assert(pv[i as int] == p@);
            self.insert_symbol(
                p.name.clone(),
                SymbolInfo { is_const: !p.is_mut, type_def: p.type_def.clone() },
            );
            i += 1;
        }
    }

    fn path_error(&mut self, f: &FnDecl, owner: Option<&str>) -> (r: Option<String>)
        ensures
            opt_text(r) == path_error(old(self).sem(), f@, opt_name(owner)),
            final(self).fn_env() == old(self).fn_env(),
            final(self).chk() == old(self).chk(),
    {
        match &f.return_type {
            None => None,
            Some(t) => match self.check_returns(&f.body, t) {
                Ok(done) => {
                    if done {
                        None
                    } else {
                        Some(
                            match owner {
                                Some(c) => cat7(
                                    "Semantic Error: Method '",
                                    c,
                                    ".",
                                    f.name.as_str(),
                                    "' promises to return ",
                                    debug_type(t).as_str(),
                                    ", but does not guarantee a return on all paths.",
                                ),
                                None => cat5(
                                    "Semantic Error: Function '",
                                    f.name.as_str(),
                                    "' promises to return ",
                                    debug_type(t).as_str(),
                                    ", but does not guarantee a return on all paths.",
                                ),
                            },
                        )
                    }
                },
                Err(e) => Some(e),
            },
        }
    }

    fn run_fn(&mut self, f: &FnDecl, owner: Option<&str>, errors: &mut Vec<String>)
        ensures
            final(self).world() == old(self).world(),
            final(self).run(final(errors)@) == fn_run(
                old(self).world(),
                old(self).run(old(errors)@),
                f@,
                opt_name(owner),
            ),
    {
        let ghost st0 = self.chk();
        let ghost ov = opt_name(owner);
        self.push_scope();
        self.current_return_type = match &f.return_type {
            Some(t) => Some(t.clone()),
            None => None,
        };
        match owner {
            Some(c) => {
                let t = Type::Primitive(String::from_str(c));
                assert(t@ == TypeV::Primitive(c@));
                self.insert_symbol(
                    String::from_str("self"),
                    SymbolInfo { is_const: true, type_def: t },
                );
            },
            None => {},
        }
        self.declare_params(&f.parameters);
        let ghost inner = self.chk();
        let ghost g = self.fn_env();
        assert(inner == entry_scopes(st0, f@, ov));
        match self.verify_body(&f.body) {
            Ok(_) => {
                let e = self.path_error(f, owner);
                push_opt(errors, e);
            },
            Err(e) => push_opt(errors, Some(e)),
        }
        proof {
            lemma_entry_keeps_outer(st0, f@, ov);
            lemma_outer_kept(g, inner, body_v(f.body@), f.body@.len());
        }
        self.pop_scope();
        assert(self.scopes() =~= st0.sc);
    }

    fn run_fns(&mut self, ds: &Vec<Declaration>, errors: &mut Vec<String>)
        ensures
            final(self).world() == old(self).world(),
            final(self).run(final(errors)@) == fns_run(
                old(self).world(),
                old(self).run(old(errors)@),
                decls_v(ds@),
                ds@.len(),
            ),
    {
        let ghost w = self.world();
        let ghost r0 = self.run(errors@);
        let ghost dv = decls_v(ds@);
        let mut i: usize = 0;
        while i < ds.len()
            invariant
                i <= ds@.len(),
                dv == decls_v(ds@),
                self.world() == w,
                self.run(errors@) == fns_run(w, r0, dv, i as nat),
            decreases ds@.len() - i,
        {
            assert(dv[i as int] == ds@[i as int]@);
            match &ds[i] {
                Declaration::Function(f) => self.run_fn(f, None, errors),
                _ => {},
            }
            i += 1;
        }
    }

    fn run_methods(&mut self, class: &str, c: &ClassDecl, errors: &mut Vec<String>)
        ensures
            final(self).world() == old(self).world(),
            final(self).run(final(errors)@) == methods_run(
                old(self).world(),
                old(self).run(old(errors)@),
                class@,
                c@,
                c@.methods.len(),
            ),
    {
        let ghost w = self.world();
        let ghost r0 = self.run(errors@);
        let mut i: usize = 0;
        while i < c.methods.len()
            invariant
                i <= c.methods@.len(),
                self.world() == w,
                self.run(errors@) == methods_run(w, r0, class@, c@, i as nat),
            decreases c.methods@.len() - i,
        {
            let f = &c.methods[i];
            assert(c@.methods[i as int] == f@);
            if f.body.len() > 0 {
                self.run_fn(f, Some(class), errors);
            }
            i += 1;
        }
    }

    fn run_classes(&mut self, errors: &mut Vec<String>)
        ensures
            final(self).world() == old(self).world(),
            final(self).run(final(errors)@) == classes_run(
                old(self).world(),
                old(self).run(old(errors)@),
                old(self).world().class_order.len(),
            ),
    {
        let ghost w = self.world();
        let ghost r0 = self.run(errors@);
        let names = clone_texts(&self.class_order);
        let mut i: usize = 0;
        while i < names.len()
            invariant
                i <= names@.len(),
                texts(names@) == w.class_order,
                self.world() == w,
                self.run(errors@) == classes_run(w, r0, i as nat),
            decreases names@.len() - i,
        {
            let name = names[i].as_str();
            assert(w.class_order[i as int] == name@);
            let found = match self.loaded_classes.get(name) {
                Some(c) => Some(c.clone()),
                None => None,
            };
            match found {
                Some(c) => {
                    assert(w.classes[name@] == c@);
                    let more = special_rules(name, &c);
                    append_all(errors, more);
                    self.run_methods(name, &c, errors);
                },
                None => {},
            }
            i += 1;
        }
    }

    fn rule(&self, k: ClassRule, name: &str, c: &ClassDecl) -> (r: Vec<String>)
        ensures
            texts(r@) == rule_errors(self.sem(), k, name@, c@),
    {
        match k {
            ClassRule::Layout => self.layout_rules(name, c),
            ClassRule::Abi => self.abi_rules(name, c),
            ClassRule::Plain => plain_rules(name, c),
            ClassRule::Const => const_rules(name, c),
            ClassRule::Repeat => repeat_rules(name, c),
        }
    }

    fn run_rule(&self, k: ClassRule, errors: &mut Vec<String>)
        ensures
            texts(final(errors)@) == rule_run(
                self.sem(),
                k,
                texts(old(errors)@),
                self.world().class_order.len(),
            ),
    {
        let ghost g = self.sem();
        let ghost e0 = texts(errors@);
        let mut i: usize = 0;
        while i < self.class_order.len()
            invariant
                i <= self.class_order@.len(),
                g == self.sem(),
                texts(errors@) == rule_run(g, k, e0, i as nat),
            decreases self.class_order@.len() - i,
        {
            let name = self.class_order[i].as_str();
            assert(g.w.class_order[i as int] == name@);
            match self.loaded_classes.get(name) {
                Some(c) => {
                    assert(g.w.classes[name@] == c@);
                    let more = self.rule(k, name, c);
                    append_all(errors, more);
                },
                None => {},
            }
            i += 1;
        }
    }

    fn learn_types(&mut self, ds: &Vec<Declaration>)
        ensures
            final(self).world() == known_types(old(self).world(), decls_v(ds@), ds@.len()),
            final(self).chk() == old(self).chk(),
            final(self).current_return_type == old(self).current_return_type,
    {
        let ghost w0 = self.world();
        let ghost dv = decls_v(ds@);
        let mut i: usize = 0;
        while i < ds.len()
            invariant
                i <= ds@.len(),
                dv == decls_v(ds@),
                self.world() == known_types(w0, dv, i as nat),
                self.chk() == old(self).chk(),
                self.current_return_type == old(self).current_return_type,
            decreases ds@.len() - i,
        {
            assert(dv[i as int] == ds@[i as int]@);
            match &ds[i] {
                Declaration::Function(f) => match &f.return_type {
                    Some(t) => {
                        let ghost before = self.function_return_types@;
                        self.function_return_types.insert(f.name.clone(), t.clone());
                        assert(type_map_v(self.function_return_types@) =~= type_map_v(
                            before,
                        ).insert(f.name@, t@));
                    },
                    None => {},
                },
                _ => {},
            }
            i += 1;
        }
    }

    /// Checks a program whose imports are resolved: `Ok` where nothing is wrong with it,
    /// else everything that was found. The declarations of the program and those
    /// imported have been declared by [`TypeChecker::start`] and [`TypeChecker::load`].
    pub fn check(&mut self, program: &Program, imports: &Imports) -> (r: Result<(), Vec<String>>)
        ensures
            ({
                let ds = decls_v(program.declarations@) + imports@.added;
                let run = check_spec(
                    old(self).world(),
                    opt_type_v(old(self).current_return_type),
                    old(self).chk(),
                    imports@,
                    ds,
                );
                &&& final(self).world() == checked_world(old(self).world(), ds)
                &&& final(self).chk() == run.st
                &&& opt_type_v(final(self).current_return_type) == run.ret
                &&& (r is Ok <==> run.errors.len() == 0)
                &&& (r matches Err(errors) ==> texts(errors@) == run.errors)
            }),
    {
        let mut ds = copy_decls(&program.declarations);
        let mut more = copy_decls(&imports.added);
        let ghost a = decls_v(ds@);
        let ghost b = decls_v(more@);
        ds.append(&mut more);
        assert(decls_v(ds@) =~= a + b);
        let ghost dv = decls_v(ds@);
        let mut errors = clone_texts(&imports.errors);
        append_all(&mut errors, imports.missing_symbols());
        let found = self.flatten_inheritance();
        append_all(&mut errors, found);
        self.learn_types(&ds);
        let ghost e0 = texts(errors@);
        let mut i: usize = 0;
        while i < ds.len()
            invariant
                i <= ds@.len(),
                dv == decls_v(ds@),
                texts(errors@) == stray_exports(e0, dv, i as nat),
            decreases ds@.len() - i,
        {
            assert(dv[i as int] == ds@[i as int]@);
            match &ds[i] {
                Declaration::Function(f) => {
                    if has_text(&f.modifiers, "export") {
                        let e = cat3(
                            "Semantic Error: top-level function '",
                            f.name.as_str(),
                            "' cannot be marked export. Entry points must be declared inside a contract block.",
                        );
                        push_opt(&mut errors, Some(e));
                    }
                },
                _ => {},
            }
            i += 1;
        }
        self.run_fns(&ds, &mut errors);
        self.run_rule(ClassRule::Layout, &mut errors);
        self.run_rule(ClassRule::Abi, &mut errors);
        self.run_rule(ClassRule::Plain, &mut errors);
        self.run_rule(ClassRule::Const, &mut errors);
        self.run_rule(ClassRule::Repeat, &mut errors);
        self.run_classes(&mut errors);
        if errors.len() == 0 {
            Ok(())
        } else {
            Err(errors)
        }
    }
}

/// What is wrong with a function that is verified within the scopes `sc`; `ext` says
/// whether a call to another contract has been seen before.
pub open spec fn body_error(
    w: WorldV,
    sc: Seq<Map<Seq<char>, SymbolV>>,
    ext: bool,
    f: FnV,
    owner: Option<Seq<char>>,
) -> Option<Seq<char>> {
    let g = FnEnvV { w, ret: f.return_type };
    let (out, r) = body_check(g, entry_scopes(ChkV { sc, ext }, f, owner), f.body, f.body.len());
    match r {
        Err(e) => Some(e),
        Ok(_) => path_error(sem_of(g, out), f, owner),
    }
}

/// What is wrong with a function is among the errors.
pub open spec fn is_reported(
    w: WorldV,
    sc: Seq<Map<Seq<char>, SymbolV>>,
    f: FnV,
    owner: Option<Seq<char>>,
    errors: Seq<Seq<char>>,
) -> bool {
    exists|ext: bool|
        match #[trigger] body_error(w, sc, ext, f, owner) {
            Some(e) => errors.contains(e),
            None => true,
        }
}

/// The errors so far stay.
pub open spec fn stays(a: Seq<Seq<char>>, b: Seq<Seq<char>>) -> bool {
    forall|e: Seq<char>| #[trigger] a.contains(e) ==> b.contains(e)
}

proof fn lemma_reported_stays(
    w: WorldV,
    sc: Seq<Map<Seq<char>, SymbolV>>,
    f: FnV,
    owner: Option<Seq<char>>,
    a: Seq<Seq<char>>,
    b: Seq<Seq<char>>,
)
    requires
        is_reported(w, sc, f, owner, a),
        stays(a, b),
    ensures
        is_reported(w, sc, f, owner, b),
{
    let ext = choose|ext: bool|
        match #[trigger] body_error(w, sc, ext, f, owner) {
            Some(e) => a.contains(e),
            None => true,
        };
    assert(match body_error(w, sc, ext, f, owner) {
        Some(e) => b.contains(e),
        None => true,
    });
}

proof fn lemma_with_opt(a: Seq<Seq<char>>, e: Option<Seq<char>>)
    ensures
        stays(a, with_opt(a, e)),
        e matches Some(x) ==> with_opt(a, e).contains(x),
{
    match e {
        Some(x) => {
            assert forall|y: Seq<char>| #[trigger] a.contains(y) implies a.push(x).contains(y) by {
                let k = choose|k: int| 0 <= k < a.len() && a[k] == y;
                assert(a.push(x)[k] == y);
            }
            assert(a.push(x)[a.len() as int] == x);
        },
        None => {},
    }
}

proof fn lemma_plus(a: Seq<Seq<char>>, b: Seq<Seq<char>>)
    ensures
        stays(a, a + b),
{
    assert forall|y: Seq<char>| #[trigger] a.contains(y) implies (a + b).contains(y) by {
        let k = choose|k: int| 0 <= k < a.len() && a[k] == y;
        assert((a + b)[k] == y);
    }
}

proof fn lemma_fn_run(w: WorldV, run: RunV, f: FnV, owner: Option<Seq<char>>)
    ensures
        fn_run(w, run, f, owner).st.sc == run.st.sc,
        stays(run.errors, fn_run(w, run, f, owner).errors),
        is_reported(w, run.st.sc, f, owner, fn_run(w, run, f, owner).errors),
{
    let e = body_error(w, run.st.sc, run.st.ext, f, owner);
    assert(run.st == ChkV { sc: run.st.sc, ext: run.st.ext });
    assert(fn_run(w, run, f, owner).errors == with_opt(run.errors, e));
    lemma_with_opt(run.errors, e);
}

proof fn lemma_fns_run(w: WorldV, run: RunV, ds: Seq<DeclV>, n: nat)
    requires
        n <= ds.len(),
    ensures
        fns_run(w, run, ds, n).st.sc == run.st.sc,
        stays(run.errors, fns_run(w, run, ds, n).errors),
        forall|i: int|
            0 <= i < n ==> (#[trigger] ds[i] matches DeclV::Function(f) ==> is_reported(
                w,
                run.st.sc,
                f,
                None,
                fns_run(w, run, ds, n).errors,
            )),
    decreases n,
{
    if n > 0 {
        lemma_fns_run(w, run, ds, (n - 1) as nat);
        let a = fns_run(w, run, ds, (n - 1) as nat);
        let b = fns_run(w, run, ds, n);
        match ds[n - 1] {
            DeclV::Function(f) => {
                lemma_fn_run(w, a, f, None);
                assert forall|i: int| 0 <= i < n implies (#[trigger] ds[i] matches DeclV::Function(f)
                    ==> is_reported(w, run.st.sc, f, None, b.errors)) by {
                    if i < n - 1 {
                        match ds[i] {
                            DeclV::Function(g) => lemma_reported_stays(
                                w,
                                run.st.sc,
                                g,
                                None,
                                a.errors,
                                b.errors,
                            ),
                            _ => {},
                        }
                    }
                }
            },
            _ => {},
        }
    }
}

proof fn lemma_methods_run(w: WorldV, run: RunV, class: Seq<char>, c: ClassV, n: nat)
    requires
        n <= c.methods.len(),
    ensures
        methods_run(w, run, class, c, n).st.sc == run.st.sc,
        stays(run.errors, methods_run(w, run, class, c, n).errors),
        forall|j: int|
            0 <= j < n && (#[trigger] c.methods[j]).body.len() > 0 ==> is_reported(
                w,
                run.st.sc,
                c.methods[j],
                Some(class),
                methods_run(w, run, class, c, n).errors,
            ),
    decreases n,
{
    if n > 0 {
        lemma_methods_run(w, run, class, c, (n - 1) as nat);
        let a = methods_run(w, run, class, c, (n - 1) as nat);
        let b = methods_run(w, run, class, c, n);
        let f = c.methods[n - 1];
        if f.body.len() > 0 {
            lemma_fn_run(w, a, f, Some(class));
        }
        assert forall|j: int|
            0 <= j < n && (#[trigger] c.methods[j]).body.len() > 0 implies is_reported(
            w,
            run.st.sc,
            c.methods[j],
            Some(class),
            b.errors,
        ) by {
            if j < n - 1 {
                lemma_reported_stays(
                    w,
                    run.st.sc,
                    c.methods[j],
                    Some(class),
                    a.errors,
                    b.errors,
                );
            }
        }
    }
}

/// What is wrong with the methods of a class is among the errors.
pub open spec fn class_is_reported(
    w: WorldV,
    sc: Seq<Map<Seq<char>, SymbolV>>,
    name: Seq<char>,
    errors: Seq<Seq<char>>,
) -> bool {
    w.classes.contains_key(name) ==> forall|j: int|
        0 <= j < w.classes[name].methods.len() && (#[trigger] w.classes[name].methods[j]).body.len()
            > 0 ==> is_reported(w, sc, w.classes[name].methods[j], Some(name), errors)
}

proof fn lemma_classes_run(w: WorldV, run: RunV, n: nat)
    requires
        n <= w.class_order.len(),
    ensures
        classes_run(w, run, n).st.sc == run.st.sc,
        stays(run.errors, classes_run(w, run, n).errors),
        forall|i: int|
            0 <= i < n ==> class_is_reported(
                w,
                run.st.sc,
                #[trigger] w.class_order[i],
                classes_run(w, run, n).errors,
            ),
    decreases n,
{
    if n > 0 {
        lemma_classes_run(w, run, (n - 1) as nat);
        let a = classes_run(w, run, (n - 1) as nat);
        let b = classes_run(w, run, n);
        let name = w.class_order[n - 1];
        if w.classes.contains_key(name) {
            let c = w.classes[name];
            let mid = RunV { errors: a.errors + special_errors(name, c), ..a };
            lemma_plus(a.errors, special_errors(name, c));
            lemma_methods_run(w, mid, name, c, c.methods.len());
        }
        assert forall|i: int| 0 <= i < n implies class_is_reported(
            w,
            run.st.sc,
            #[trigger] w.class_order[i],
            b.errors,
        ) by {
            if i < n - 1 {
                let k = w.class_order[i];
                assert(class_is_reported(w, run.st.sc, k, a.errors));
                if w.classes.contains_key(k) {
                    assert forall|j: int|
                        0 <= j < w.classes[k].methods.len() && (
                        #[trigger] w.classes[k].methods[j]).body.len() > 0 implies is_reported(
                        w,
                        run.st.sc,
                        w.classes[k].methods[j],
                        Some(k),
                        b.errors,
                    ) by {
                        lemma_reported_stays(
                            w,
                            run.st.sc,
                            w.classes[k].methods[j],
                            Some(k),
                            a.errors,
                            b.errors,
                        );
                    }
                }
            }
        }
    }
}

proof fn lemma_rule_run(g: SemV, k: ClassRule, errors: Seq<Seq<char>>, n: nat)
    requires
        n <= g.w.class_order.len(),
    ensures
        stays(errors, rule_run(g, k, errors, n)),
    decreases n,
{
    if n > 0 {
        lemma_rule_run(g, k, errors, (n - 1) as nat);
        let name = g.w.class_order[n - 1];
        let a = rule_run(g, k, errors, (n - 1) as nat);
        lemma_plus(a, rule_errors(g, k, name, g.w.classes[name]));
    }
}

proof fn lemma_rules_run(g: SemV, errors: Seq<Seq<char>>)
    ensures
        stays(errors, rules_run(g, errors)),
{
    let n = g.w.class_order.len();
    let a = rule_run(g, ClassRule::Layout, errors, n);
    let b = rule_run(g, ClassRule::Abi, a, n);
    let c = rule_run(g, ClassRule::Plain, b, n);
    let d = rule_run(g, ClassRule::Const, c, n);
    lemma_rule_run(g, ClassRule::Layout, errors, n);
    lemma_rule_run(g, ClassRule::Abi, a, n);
    lemma_rule_run(g, ClassRule::Plain, b, n);
    lemma_rule_run(g, ClassRule::Const, c, n);
    lemma_rule_run(g, ClassRule::Repeat, d, n);
}

/// Every function and every method with a body is verified within the scopes that the
/// check began with, and what is wrong with it is reported, whatever is wrong with the
/// others. So where the check finds nothing, every body is in order.
pub proof fn law_every_body_is_checked(
    w: WorldV,
    ret: Option<TypeV>,
    st: ChkV,
    im: ImportsV,
    ds: Seq<DeclV>,
)
    ensures
        ({
            let errors = check_spec(w, ret, st, im, ds).errors;
            let v = checked_world(w, ds);
            &&& forall|i: int|
                0 <= i < ds.len() ==> (#[trigger] ds[i] matches DeclV::Function(f) ==> is_reported(
                    v,
                    st.sc,
                    f,
                    None,
                    errors,
                ))
            &&& forall|i: int|
                0 <= i < v.class_order.len() ==> class_is_reported(
                    v,
                    st.sc,
                    #[trigger] v.class_order[i],
                    errors,
                )
        }),
{
    let e0 = im.errors + missing_symbols(im, im.requested.len()) + flatten_world(w).1;
    let e1 = stray_exports(e0, ds, ds.len());
    let v = checked_world(w, ds);
    let r0 = RunV { ret, st, errors: e1 };
    let r1 = fns_run(v, r0, ds, ds.len());
    let r2 = RunV { errors: rules_run(SemV { w: v, sc: r1.st.sc }, r1.errors), ..r1 };
    let r3 = classes_run(v, r2, v.class_order.len());
    lemma_fns_run(v, r0, ds, ds.len());
    lemma_rules_run(SemV { w: v, sc: r1.st.sc }, r1.errors);
    lemma_classes_run(v, r2, v.class_order.len());
    assert forall|i: int| 0 <= i < ds.len() implies (#[trigger] ds[i] matches DeclV::Function(f)
        ==> is_reported(v, st.sc, f, None, r3.errors)) by {
        match ds[i] {
            DeclV::Function(f) => {
                lemma_reported_stays(v, st.sc, f, None, r1.errors, r2.errors);
                lemma_reported_stays(v, st.sc, f, None, r2.errors, r3.errors);
            },
            _ => {},
        }
    }
}

} // verus!
