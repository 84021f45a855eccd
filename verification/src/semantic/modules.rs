//! How imports are resolved. A path is a module and the symbol wanted out of it; a
//! module is read and parsed once, and what it holds is merged symbol by symbol.
//!
//! The one who reads files runs the loop: [`Imports::next`] says what to read,
//! [`TypeChecker::load`] takes what came of it, and [`Imports::note_missing`] takes
//! that nothing could be read.
use crate::ast::{decls_v, DeclV, Declaration, Program, UseDecl};
use crate::codegen::yul::opt_text;
use crate::names::{lemma_sorted, sorted, NameMap, NameSet, SortedMap};
use crate::semantic::{enums_v, errors_v, TypeChecker, WorldV};
use crate::semantic::closure::{closure_spec, decl_name, decl_name_spec, symbol_closure};
use crate::semantic::inherit::register_spec;
use crate::semantic::rules::{push_opt, with_opt};
use crate::stdlib::{cut_last_dot, is_std_path, last_dot, split_module, split_spec};
use crate::text::{
    begins, cat2, cat3, cat4, cat8, cat9, chars_of, join, join_spec, lower, lower_spec,
    slice_text, texts,
};
use vstd::prelude::*;

verus! {

broadcast use crate::ast::group_views;

/// A symbol that some path wants out of a module.
pub struct Wanted {
    pub use_path: String,
    pub module: String,
    pub symbol: String,
}

pub struct WantedV {
    pub use_path: Seq<char>,
    pub module: Seq<char>,
    pub symbol: Seq<char>,
}

impl Wanted {
    pub open spec fn view(&self) -> WantedV {
        WantedV { use_path: self.use_path@, module: self.module@, symbol: self.symbol@ }
    }
}

pub open spec fn wants_v(s: Seq<Wanted>) -> Seq<WantedV> {
    Seq::new(s.len(), |i: int| s[i]@)
}

/// How far the imports of a program have been resolved.
pub struct Imports {
    /// The paths that are still to be resolved; the last comes first.
    pub pending: Vec<String>,
    pub requested: Vec<Wanted>,
    /// What has been parsed.
    pub modules: NameMap<Program>,
    /// What has been merged, as `module::Name`.
    pub merged: NameSet,
    pub errors: Vec<String>,
    /// The merged declarations.
    pub added: Vec<Declaration>,
}

#[verifier::ext_equal]
pub struct ImportsV {
    pub pending: Seq<Seq<char>>,
    pub requested: Seq<WantedV>,
    pub modules: Map<Seq<char>, Seq<DeclV>>,
    pub merged: Set<Seq<char>>,
    pub errors: Seq<Seq<char>>,
    pub added: Seq<DeclV>,
}

pub open spec fn modules_v(m: Map<Seq<char>, Program>) -> Map<Seq<char>, Seq<DeclV>> {
    Map::new(|k: Seq<char>| m.contains_key(k), |k: Seq<char>| decls_v(m[k].declarations@))
}

impl Imports {
    pub open spec fn view(&self) -> ImportsV {
        ImportsV {
            pending: texts(self.pending@),
            requested: wants_v(self.requested@),
            modules: modules_v(self.modules@),
            merged: self.merged@,
            errors: texts(self.errors@),
            added: decls_v(self.added@),
        }
    }
}

/// Where the next module is to be found.
#[derive(Debug, PartialEq)]
pub enum Source {
    /// In the standard library.
    Std { use_path: String, module: String, symbol: Option<String> },
    /// In the file `direct`; where there is none, in the file of `fallback`, out of
    /// which its symbol is wanted.
    Local { use_path: String, direct: String, fallback: Option<(String, String)> },
}

pub enum SourceV {
    Std { use_path: Seq<char>, module: Seq<char>, symbol: Option<Seq<char>> },
    Local { use_path: Seq<char>, direct: Seq<char>, fallback: Option<(Seq<char>, Seq<char>)> },
}

impl Source {
    pub open spec fn view(&self) -> SourceV {
        match self {
            Source::Std { use_path, module, symbol } => SourceV::Std {
                use_path: use_path@,
                module: module@,
                symbol: opt_text(*symbol),
            },
            Source::Local { use_path, direct, fallback } => SourceV::Local {
                use_path: use_path@,
                direct: direct@,
                fallback: match fallback {
                    Some(p) => Some((p.0@, p.1@)),
                    None => None,
                },
            },
        }
    }
}

/// The characters of a path with a slash for each dot.
pub open spec fn slashed(path: Seq<char>) -> Seq<char> {
    Seq::new(
        path.len(),
        |i: int|
            if path[i] == '.' {
                '/'
            } else {
                path[i]
            },
    )
}

/// The file of a local module.
pub open spec fn local_path_spec(base_dir: Seq<char>, path: Seq<char>) -> Seq<char> {
    base_dir + "/"@ + slashed(path) + ".gum"@
}

pub fn local_path(base_dir: &str, path: &str) -> (r: String)
    ensures
        r@ == local_path_spec(base_dir@, path@),
{
    let mut v = chars_of(path);
    let mut i: usize = 0;
    while i < v.len()
        invariant
            i <= v@.len(),
            v@.len() == path@.len(),
            forall|k: int| 0 <= k < i ==> #[trigger] v@[k] == slashed(path@)[k],
            forall|k: int| i <= k < v@.len() ==> #[trigger] v@[k] == path@[k],
        decreases v@.len() - i,
    {
        if v[i] == '.' {
            v.set(i, '/');
        }
        i += 1;
    }
    assert(v@ =~= slashed(path@));
    let n = v.len();
    let s = slice_text(&v, 0, n);
    assert(v@.subrange(0, n as int) =~= v@);
    cat4(base_dir, "/", s.as_str(), ".gum")
}

/// Where a local module is to be found.
pub open spec fn local_source(base_dir: Seq<char>, path: Seq<char>) -> SourceV {
    SourceV::Local {
        use_path: path,
        direct: local_path_spec(base_dir, path),
        fallback: match last_dot(path) {
            Some((head, sym)) => Some((local_path_spec(base_dir, head), sym)),
            None => None,
        },
    }
}

pub open spec fn no_such_module(path: Seq<char>) -> Seq<char> {
    "Module Error: '"@ + path + "' does not name anything in the standard library. Modules: "@
        + "gum.defaults"@ + "."@
}

/// The next module to read; a path that names nothing in the standard library is an
/// error, and passed over.
pub open spec fn next_spec(
    pending: Seq<Seq<char>>,
    errors: Seq<Seq<char>>,
    base_dir: Seq<char>,
) -> (Seq<Seq<char>>, Seq<Seq<char>>, Option<SourceV>)
    decreases pending.len(),
{
    if pending.len() == 0 {
        (pending, errors, None)
    } else {
        let path = pending.last();
        let left = pending.drop_last();
        if begins(path, "gum."@) {
            match split_spec(path) {
                Some((module, symbol)) => (
                    left,
                    errors,
                    Some(SourceV::Std { use_path: path, module, symbol }),
                ),
                None => next_spec(left, errors.push(no_such_module(path)), base_dir),
            }
        } else {
            (left, errors, Some(local_source(base_dir, path)))
        }
    }
}

pub open spec fn unreadable(
    use_path: Seq<char>,
    direct: Seq<char>,
    fallback: Option<Seq<char>>,
    reason: Seq<char>,
) -> Seq<char> {
    match fallback {
        Some(p) => "Module Error: cannot read module '"@ + use_path + "', tried "@ + direct
            + " and "@ + p + ": "@ + reason,
        None => "Module Error: cannot read module '"@ + use_path + "' at "@ + direct,
    }
}

impl Imports {
    /// What is to be read next; `None` when every import is resolved.
    pub fn next(&mut self, base_dir: &str) -> (r: Option<Source>)
        ensures
            next_spec(old(self)@.pending, old(self)@.errors, base_dir@) == (
                final(self)@.pending,
                final(self)@.errors,
                match r {
                    Some(s) => Some(s@),
                    None => None,
                },
            ),
            final(self)@ == (ImportsV {
                pending: final(self)@.pending,
                errors: final(self)@.errors,
                ..old(self)@
            }),
    {
        let ghost p0 = self@.pending;
        let ghost e0 = self@.errors;
        loop
            invariant
                p0 == old(self)@.pending,
                e0 == old(self)@.errors,
                next_spec(p0, e0, base_dir@) == next_spec(
                    self@.pending,
                    self@.errors,
                    base_dir@,
                ),
                self@ == (ImportsV {
                    pending: self@.pending,
                    errors: self@.errors,
                    ..old(self)@
                }),
            decreases self.pending@.len(),
        {
            let ghost before = self.pending@;
            let path = match self.pending.pop() {
                Some(p) => p,
                None => {
                    return None;
                },
            };
            assert(texts(self.pending@) =~= texts(before).drop_last());
            assert(texts(before).last() == path@);
            if is_std_path(path.as_str()) {
                match split_module(path.as_str()) {
                    Some((module, symbol)) => {
                        return Some(Source::Std { use_path: path, module, symbol });
                    },
                    None => {
                        let e = cat4(
                            "Module Error: '",
                            path.as_str(),
                            "' does not name anything in the standard library. Modules: ",
                            "gum.defaults",
                        );
                        let e = cat2(e.as_str(), ".");
                        let ghost ev = e@;
                        let ghost errs = texts(self.errors@);
                        self.errors.push(e);
                        assert(texts(self.errors@) =~= errs.push(ev));
                    },
                }
            } else {
                let direct = local_path(base_dir, path.as_str());
                let fallback = match cut_last_dot(path.as_str()) {
                    Some((head, sym)) => Some((local_path(base_dir, head.as_str()), sym)),
                    None => None,
                };
                return Some(Source::Local { use_path: path, direct, fallback });
            }
        }
    }

    /// Whether a module has been parsed already.
    pub fn knows(&self, module: &str) -> (r: bool)
        ensures
            r == self@.modules.contains_key(module@),
    {
        self.modules.has(module)
    }

    /// No file could be read for a path.
    pub fn note_missing(
        &mut self,
        use_path: &str,
        direct: &str,
        fallback: Option<&str>,
        reason: &str,
    )
        ensures
            final(self)@ == (ImportsV {
                errors: old(self)@.errors.push(
                    unreadable(
                        use_path@,
                        direct@,
                        match fallback {
                            Some(p) => Some(p@),
                            None => None,
                        },
                        reason@,
                    ),
                ),
                ..old(self)@
            }),
    {
        let e = match fallback {
            Some(p) => cat8(
                "Module Error: cannot read module '",
                use_path,
                "', tried ",
                direct,
                " and ",
                p,
                ": ",
                reason,
            ),
            None => cat4("Module Error: cannot read module '", use_path, "' at ", direct),
        };
        let ghost ev = e@;
        let ghost errs = texts(self.errors@);
        self.errors.push(e);
        assert(texts(self.errors@) =~= errs.push(ev));
    }
}

fn copy_decl(d: &Declaration) -> (r: Declaration)
    ensures
        r@ == d@,
{
    match d {
        Declaration::Use(u) => Declaration::Use(UseDecl { path: u.path.clone() }),
        Declaration::Class(c) => Declaration::Class(c.clone()),
        Declaration::Enum(e) => Declaration::Enum(e.clone()),
        Declaration::Error(e) => Declaration::Error(e.clone()),
        Declaration::Function(f) => Declaration::Function(f.clone()),
    }
}

pub(crate) fn copy_decls(ds: &Vec<Declaration>) -> (r: Vec<Declaration>)
    ensures
        decls_v(r@) == decls_v(ds@),
{
    let mut out: Vec<Declaration> = Vec::new();
    let mut i: usize = 0;
    while i < ds.len()
        invariant
            i <= ds@.len(),
            out@.len() == i,
            forall|k: int| 0 <= k < i ==> (#[trigger] out@[k])@ == ds@[k]@,
        decreases ds@.len() - i,
    {
        out.push(copy_decl(&ds[i]));
        i += 1;
    }
    assert(decls_v(out@) =~= decls_v(ds@));
    out
}

/// What is declared, with one declaration more.
pub open spec fn declare_spec(w: WorldV, d: DeclV) -> WorldV {
    match d {
        DeclV::Class(c) => register_spec(w, c),
        DeclV::Enum(e) => WorldV { enums: w.enums.insert(e.name, e), ..w },
        DeclV::Error(e) => WorldV { errors: w.errors.insert(e.name, e), ..w },
        _ => w,
    }
}

/// What the first `n` declarations of a program declare.
pub open spec fn declare_all(w: WorldV, ds: Seq<DeclV>, n: nat) -> WorldV
    decreases n,
{
    if n == 0 {
        w
    } else {
        declare_spec(declare_all(w, ds, (n - 1) as nat), ds[n - 1])
    }
}

/// The paths that the first `n` declarations import.
pub open spec fn use_paths(ds: Seq<DeclV>, n: nat) -> Seq<Seq<char>>
    decreases n,
{
    if n == 0 {
        Seq::empty()
    } else {
        let out = use_paths(ds, (n - 1) as nat);
        match ds[n - 1] {
            DeclV::Use(p) => out.push(p),
            _ => out,
        }
    }
}

/// Nothing imported yet but what the program itself asks for.
pub open spec fn first_imports(ds: Seq<DeclV>) -> ImportsV {
    ImportsV {
        pending: use_paths(ds, ds.len()),
        requested: Seq::empty(),
        modules: Map::empty(),
        merged: Set::empty(),
        errors: Seq::empty(),
        added: Seq::empty(),
    }
}

/// The state of what is declared and imported.
pub struct LoadV {
    pub w: WorldV,
    pub im: ImportsV,
}

/// One declaration of a module is merged, unless it has been before; an import in it
/// is left for later.
pub open spec fn merge_decl(l: LoadV, module: Seq<char>, d: DeclV) -> LoadV {
    match d {
        DeclV::Use(p) => LoadV { im: ImportsV { pending: l.im.pending.push(p), ..l.im }, ..l },
        _ => match decl_name_spec(d) {
            Some(n) => {
                let key = module + "::"@ + n;
                if l.im.merged.contains(key) {
                    l
                } else {
                    LoadV {
                        w: declare_spec(l.w, d),
                        im: ImportsV {
                            merged: l.im.merged.insert(key),
                            added: l.im.added.push(d),
                            ..l.im
                        },
                    }
                }
            },
            None => l,
        },
    }
}

/// The declarations at the first `n` of the given positions are merged.
pub open spec fn merge_at(
    l: LoadV,
    module: Seq<char>,
    ds: Seq<DeclV>,
    at: Seq<usize>,
    n: nat,
) -> LoadV
    decreases n,
{
    if n == 0 {
        l
    } else {
        merge_decl(merge_at(l, module, ds, at, (n - 1) as nat), module, ds[at[n - 1] as int])
    }
}

/// Which declarations of a module an import brings: the symbol and what its signature
/// reaches, or all of them.
pub open spec fn brought(ds: Seq<DeclV>, symbol: Option<Seq<char>>) -> Seq<usize> {
    match symbol {
        Some(s) => closure_spec(ds, s),
        None => Seq::new(ds.len(), |i: int| i as usize),
    }
}

/// The errors of a module, each with the module's name.
pub open spec fn located(errors: Seq<Seq<char>>, module: Seq<char>) -> Seq<Seq<char>> {
    errors.map_values(|e: Seq<char>| e + " ("@ + module + ")"@)
}

/// What came of parsing a module.
pub open spec fn parsed_v(p: Option<Result<Program, Vec<String>>>) -> Option<
    Result<Seq<DeclV>, Seq<Seq<char>>>,
> {
    match p {
        Some(Ok(p)) => Some(Ok(decls_v(p.declarations@))),
        Some(Err(e)) => Some(Err(texts(e@))),
        None => None,
    }
}

/// The imports once a module is at hand: it is kept the first time it is parsed.
pub open spec fn keep_module(
    im: ImportsV,
    module: Seq<char>,
    parsed: Option<Result<Seq<DeclV>, Seq<Seq<char>>>>,
) -> ImportsV {
    if im.modules.contains_key(module) {
        im
    } else {
        match parsed {
            Some(Ok(ds)) => ImportsV { modules: im.modules.insert(module, ds), ..im },
            Some(Err(es)) => ImportsV { errors: im.errors + located(es, module), ..im },
            None => im,
        }
    }
}

/// What an import brings about, once its module has been read.
pub open spec fn load_spec(
    l: LoadV,
    use_path: Seq<char>,
    module: Seq<char>,
    symbol: Option<Seq<char>>,
    parsed: Option<Result<Seq<DeclV>, Seq<Seq<char>>>>,
) -> LoadV {
    let im = match symbol {
        Some(s) => ImportsV {
            requested: l.im.requested.push(WantedV { use_path, module, symbol: s }),
            ..l.im
        },
        None => l.im,
    };
    let im = keep_module(im, module, parsed);
    if im.modules.contains_key(module) {
        let ds = im.modules[module];
        let at = brought(ds, symbol);
        merge_at(LoadV { w: l.w, im }, module, ds, at, at.len())
    } else {
        LoadV { w: l.w, im }
    }
}

fn all_positions(n: usize) -> (r: Vec<usize>)
    ensures
        r@ == Seq::new(n as nat, |i: int| i as usize),
{
    let mut out: Vec<usize> = Vec::new();
    let mut i: usize = 0;
    while i < n
        invariant
            i <= n,
            out@ == Seq::new(i as nat, |k: int| k as usize),
        decreases n - i,
    {
        out.push(i);
        assert(out@ =~= Seq::new((i + 1) as nat, |k: int| k as usize));
        i += 1;
    }
    out
}

impl TypeChecker {
    pub open spec fn load_state(&self, im: Imports) -> LoadV {
        LoadV { w: self.world(), im: im@ }
    }

    /// Adds a declaration to what is declared.
    fn declare(&mut self, d: &Declaration)
        ensures
            final(self).world() == declare_spec(old(self).world(), d@),
            final(self).chk() == old(self).chk(),
            final(self).current_return_type == old(self).current_return_type,
    {
        match d {
            Declaration::Class(c) => self.register_class(c),
            Declaration::Enum(e) => {
                let ghost before = self.loaded_enums@;
                let copy = e.clone();
                let ghost cv = copy;
                self.loaded_enums.insert(e.name.clone(), copy);
                assert(self.loaded_enums@ == before.insert(e.name@, cv));
                assert(enums_v(self.loaded_enums@) =~= enums_v(before).insert(e.name@, e@));
            },
            Declaration::Error(e) => {
                let ghost before = self.loaded_errors@;
                let copy = e.clone();
                let ghost cv = copy;
                self.loaded_errors.insert(e.name.clone(), copy);
                assert(self.loaded_errors@ == before.insert(e.name@, cv));
                assert(errors_v(self.loaded_errors@) =~= errors_v(before).insert(e.name@, e@));
            },
            _ => {},
        }
    }

    /// Declares what a program declares itself, and gathers what it imports.
    pub fn start(&mut self, program: &Program) -> (r: Imports)
        ensures
            final(self).world() == declare_all(
                old(self).world(),
                decls_v(program.declarations@),
                program.declarations@.len(),
            ),
            r@ == first_imports(decls_v(program.declarations@)),
            final(self).chk() == old(self).chk(),
            final(self).current_return_type == old(self).current_return_type,
    {
        let ds = &program.declarations;
        let ghost dv = decls_v(ds@);
        let ghost w0 = self.world();
        let mut pending: Vec<String> = Vec::new();
        assert(texts(pending@) =~= Seq::<Seq<char>>::empty());
        let mut i: usize = 0;
        while i < ds.len()
            invariant
                i <= ds@.len(),
                dv == decls_v(ds@),
                self.world() == declare_all(w0, dv, i as nat),
                texts(pending@) == use_paths(dv, i as nat),
                self.chk() == old(self).chk(),
                self.current_return_type == old(self).current_return_type,
            decreases ds@.len() - i,
        {
            assert(dv[i as int] == ds@[i as int]@);
            self.declare(&ds[i]);
            match &ds[i] {
                Declaration::Use(u) => {
                    let ghost before = texts(pending@);
                    pending.push(u.path.clone());
                    assert(texts(pending@) =~= before.push(u.path@));
                },
                _ => {},
            }
            i += 1;
        }
        let im = Imports {
            pending,
            requested: Vec::new(),
            modules: NameMap::new(),
            merged: NameSet::new(),
            errors: Vec::new(),
            added: Vec::new(),
        };
        assert(im@ =~= first_imports(dv));
        im
    }

    fn merge(&mut self, im: &mut Imports, module: &str, d: &Declaration)
        ensures
            final(self).load_state(*final(im)) == merge_decl(
                old(self).load_state(*old(im)),
                module@,
                d@,
            ),
            final(self).chk() == old(self).chk(),
            final(self).current_return_type == old(self).current_return_type,
    {
        match d {
            Declaration::Use(u) => {
                let ghost before = texts(im.pending@);
                im.pending.push(u.path.clone());
                assert(texts(im.pending@) =~= before.push(u.path@));
            },
            _ => {
                match decl_name(d) {
                    Some(n) => {
                        let key = cat3(module, "::", n.as_str());
                        if im.merged.insert(key) {
                            self.declare(d);
                            let ghost before = decls_v(im.added@);
                            let copy = copy_decl(d);
                            im.added.push(copy);
                            assert(decls_v(im.added@) =~= before.push(d@));
                        } else {
                            assert(im.merged@ =~= old(im).merged@);
                        }
                    },
                    None => {},
                }
            },
        }
    }

    /// Takes what was read for a path: the module's name, the symbol wanted out of it,
    /// and what came of parsing it; `None` where it was parsed before.
    pub fn load(
        &mut self,
        im: &mut Imports,
        use_path: &str,
        module: &str,
        symbol: Option<String>,
        parsed: Option<Result<Program, Vec<String>>>,
    )
        ensures
            final(self).load_state(*final(im)) == load_spec(
                old(self).load_state(*old(im)),
                use_path@,
                module@,
                opt_text(symbol),
                parsed_v(parsed),
            ),
            final(self).chk() == old(self).chk(),
            final(self).current_return_type == old(self).current_return_type,
    {
        let ghost sv = opt_text(symbol);
        let ghost pv = parsed_v(parsed);
        let ghost l0 = self.load_state(*im);
        match &symbol {
            Some(s) => {
                let ghost before = wants_v(im.requested@);
                im.requested.push(
                    Wanted {
                        use_path: String::from_str(use_path),
                        module: String::from_str(module),
                        symbol: s.clone(),
                    },
                );
                assert(wants_v(im.requested@) =~= before.push(
                    WantedV { use_path: use_path@, module: module@, symbol: s@ },
                ));
            },
            None => {},
        }
        let ghost im1 = im@;
        if !im.knows(module) {
            match parsed {
                Some(Ok(p)) => {
                    let ghost before = im.modules@;
                    let ghost prog = p;
                    im.modules.insert(String::from_str(module), p);
                    assert(modules_v(im.modules@) =~= modules_v(before).insert(
                        module@,
                        decls_v(prog.declarations@),
                    ));
                },
                Some(Err(es)) => {
                    im.locate(&es, module);
                },
                None => {},
            }
        }
        let ghost im2 = im@;
        assert(im2 == keep_module(im1, module@, pv));
        let ds = match im.modules.get(module) {
            Some(p) => {
                assert(im2.modules[module@] == decls_v(p.declarations@));
                copy_decls(&p.declarations)
            },
            None => {
                return;
            },
        };
        let ghost dv = decls_v(ds@);
        let at = match &symbol {
            Some(s) => symbol_closure(&ds, s.as_str()),
            None => all_positions(ds.len()),
        };
        assert(at@ == brought(dv, sv));
        let ghost l2 = LoadV { w: l0.w, im: im2 };
        let mut i: usize = 0;
        while i < at.len()
            invariant
                i <= at@.len(),
                dv == decls_v(ds@),
                forall|k: int| 0 <= k < at@.len() ==> (#[trigger] at@[k]) < ds@.len(),
                self.load_state(*im) == merge_at(l2, module@, dv, at@, i as nat),
                self.chk() == old(self).chk(),
                self.current_return_type == old(self).current_return_type,
            decreases at@.len() - i,
        {
            assert(dv[at@[i as int] as int] == ds@[at@[i as int] as int]@);
            self.merge(im, module, &ds[at[i]]);
            i += 1;
        }
    }
}

impl Imports {
    /// The errors of a module that did not parse.
    fn locate(&mut self, es: &Vec<String>, module: &str)
        ensures
            final(self)@ == (ImportsV {
                errors: old(self)@.errors + located(texts(es@), module@),
                ..old(self)@
            }),
    {
        let ghost before = texts(self.errors@);
        let ghost more = located(texts(es@), module@);
        let mut i: usize = 0;
        assert(before + more.take(0) =~= before);
        while i < es.len()
            invariant
                i <= es@.len(),
                more == located(texts(es@), module@),
                before == old(self)@.errors,
                self@ == (ImportsV { errors: before + more.take(i as int), ..old(self)@ }),
            decreases es@.len() - i,
        {
            let e = cat4(es[i].as_str(), " (", module, ")");
            let ghost ev = e@;
            let ghost errs = texts(self.errors@);
            self.errors.push(e);
            assert(texts(self.errors@) =~= errs.push(ev));
            assert(ev == more[i as int]);
            assert(before + more.take(i + 1) =~= (before + more.take(i as int)).push(ev));
            i += 1;
        }
        assert(more.take(es@.len() as int) =~= more);
    }
}

/// The names that a module declares, in lower case.
pub open spec fn declared_names(ds: Seq<DeclV>, n: nat) -> Set<Seq<char>>
    decreases n,
{
    if n == 0 {
        Set::empty()
    } else {
        let out = declared_names(ds, (n - 1) as nat);
        match decl_name_spec(ds[n - 1]) {
            Some(x) => out.insert(lower_spec(x)),
            None => out,
        }
    }
}

/// What is wrong with a path whose module has no such symbol.
pub open spec fn missing_symbol(im: ImportsV, r: WantedV) -> Option<Seq<char>> {
    if im.modules.contains_key(r.module) {
        let ds = im.modules[r.module];
        let have = declared_names(ds, ds.len());
        if have.contains(lower_spec(r.symbol)) {
            None
        } else {
            Some(
                "Module Error: '"@ + r.use_path + "' has no '"@ + r.symbol + "'. Module '"@
                    + r.module + "' declares: "@ + join_spec(sorted(have), ", "@) + "."@,
            )
        }
    } else {
        None
    }
}

/// What is wrong with the first `n` symbols that were asked for.
pub open spec fn missing_symbols(im: ImportsV, n: nat) -> Seq<Seq<char>>
    decreases n,
{
    if n == 0 {
        Seq::empty()
    } else {
        with_opt(
            missing_symbols(im, (n - 1) as nat),
            missing_symbol(im, im.requested[n - 1]),
        )
    }
}

fn names_of(ds: &Vec<Declaration>) -> (r: SortedMap<bool>)
    ensures
        r@.dom() == declared_names(decls_v(ds@), ds@.len()),
{
    let ghost dv = decls_v(ds@);
    let mut out: SortedMap<bool> = SortedMap::new();
    let mut i: usize = 0;
    assert(out@.dom() =~= Set::<Seq<char>>::empty());
    while i < ds.len()
        invariant
            i <= ds@.len(),
            dv == decls_v(ds@),
            out@.dom() == declared_names(dv, i as nat),
        decreases ds@.len() - i,
    {
        assert(dv[i as int] == ds@[i as int]@);
        match decl_name(&ds[i]) {
            Some(x) => {
                let ghost before = out@;
                out.insert(lower(x.as_str()), true);
                assert(out@.dom() =~= before.dom().insert(lower_spec(x@)));
            },
            None => {},
        }
        i += 1;
    }
    out
}

fn keys_of(m: &SortedMap<bool>) -> (r: Vec<String>)
    ensures
        texts(r@) == sorted(m@.dom()),
{
    let n = m.len();
    proof {
        assert forall|k: Seq<char>| #[trigger] m.order().contains(k) <==> m@.dom().contains(k) by {
            assert(m@.contains_key(k) <==> m.order().contains(k));
        }
        lemma_sorted(m.order(), m@.dom());
    }
    let mut out: Vec<String> = Vec::new();
    let mut i: usize = 0;
    while i < n
        invariant
            i <= n,
            n == m.order().len(),
            out@.len() == i,
            forall|k: int| 0 <= k < i ==> (#[trigger] out@[k])@ == m.order()[k],
        decreases n - i,
    {
        out.push(m.key_at(i).clone());
        i += 1;
    }
    assert(texts(out@) =~= m.order());
    out
}

impl Imports {
    fn missing(&self, r: &Wanted) -> (e: Option<String>)
        ensures
            opt_text(e) == missing_symbol(self@, r@),
    {
        match self.modules.get(r.module.as_str()) {
            Some(p) => {
                assert(self@.modules[r.module@] == decls_v(p.declarations@));
                let have = names_of(&p.declarations);
                if have.has(lower(r.symbol.as_str()).as_str()) {
                    None
                } else {
                    let list = join(&keys_of(&have), ", ");
                    Some(
                        cat9(
                            "Module Error: '",
                            r.use_path.as_str(),
                            "' has no '",
                            r.symbol.as_str(),
                            "'. Module '",
                            r.module.as_str(),
                            "' declares: ",
                            list.as_str(),
                            ".",
                        ),
                    )
                }
            },
            None => None,
        }
    }

    /// What is wrong with the symbols that were asked for. A module is parsed when it is
    /// first asked for, so this is known only once every import is resolved.
    pub fn missing_symbols(&self) -> (r: Vec<String>)
        ensures
            texts(r@) == missing_symbols(self@, self@.requested.len()),
    {
        let mut out: Vec<String> = Vec::new();
        let mut i: usize = 0;
        assert(texts(out@) =~= Seq::<Seq<char>>::empty());
        while i < self.requested.len()
            invariant
                i <= self.requested@.len(),
                texts(out@) == missing_symbols(self@, i as nat),
            decreases self.requested@.len() - i,
        {
            assert(self@.requested[i as int] == self.requested@[i as int]@);
            let e = self.missing(&self.requested[i]);
            push_opt(&mut out, e);
            i += 1;
        }
        out
    }
}

} // verus!
