//! The ABI: how types are spelled to the outside, selectors, and the entries
//! that describe a contract to its callers.
use crate::ast::{
    decls_v, fields_v, find_method, method_named, params_v, ClassDecl, ClassField, ClassV, DeclV,
    Declaration, FieldV, FnDecl, FnV, ParamV, Parameter, Program, Type, TypeV,
};
use crate::codegen::mutability::{mutability_spec, state_mutability, Mut};
use crate::codegen::yul::{
    byte_width, byte_width_spec, is_sint_name, is_uint_name, keccak, keccak256, opt_text,
    selector_spec, selector_text, sint_name, uint_name,
};
use crate::names::NameMap;
use crate::semantic::{class_count, TypeChecker, WorldV};
use crate::text::{cat2, cat3, cat4, dec, dec_text, has_text, join, join_spec, rest, same, texts};
use vstd::utf8::encode_utf8;
use vstd::prelude::*;

verus! {

broadcast use crate::ast::group_views;

/// One input, output or component. `indexed` is there for the fields of an
/// event only: whether the field is a topic.
#[derive(Debug)]
pub struct AbiInput {
    pub name: String,
    pub type_text: String,
    pub components: Vec<AbiInput>,
    pub indexed: Option<bool>,
}

/// The view of an [`AbiInput`].
pub struct InputV {
    pub name: Seq<char>,
    pub type_text: Seq<char>,
    pub components: Seq<InputV>,
    pub indexed: Option<bool>,
}

pub open spec fn inputs_v(s: Seq<AbiInput>) -> Seq<InputV>
    decreases s,
{
    Seq::new(
        s.len(),
        |i: int|
            if 0 <= i < s.len() {
                s[i].view()
            } else {
                arbitrary()
            },
    )
}

impl AbiInput {
    pub open spec fn view(&self) -> InputV
        decreases self,
    {
        InputV {
            name: self.name@,
            type_text: self.type_text@,
            components: inputs_v(self.components@),
            indexed: self.indexed,
        }
    }

    /// An input that is no field of an event.
    pub fn plain(name: String, type_text: String, components: Vec<AbiInput>) -> (r: Self)
        ensures
            r@ == plain_spec(name@, type_text@, inputs_v(components@)),
    {
        AbiInput { name, type_text, components, indexed: None }
    }
}

pub open spec fn plain_spec(name: Seq<char>, type_text: Seq<char>, components: Seq<InputV>) -> InputV {
    InputV { name, type_text, components, indexed: None }
}

pub proof fn lemma_inputs_push(s: Seq<AbiInput>, x: AbiInput)
    ensures
        inputs_v(s.push(x)) == inputs_v(s).push(x@),
{
    assert(inputs_v(s.push(x)) =~= inputs_v(s).push(x@));
}

pub fn clone_inputs(v: &Vec<AbiInput>) -> (r: Vec<AbiInput>)
    ensures
        inputs_v(r@) == inputs_v(v@),
    decreases v,
{
    let mut out: Vec<AbiInput> = Vec::new();
    let mut i: usize = 0;
    while i < v.len()
        invariant
            i <= v@.len(),
            out@.len() == i,
            forall|k: int| 0 <= k < i ==> (#[trigger] out@[k])@ == v@[k]@,
        decreases v@.len() - i,
    {
        let x: &AbiInput = &v[i];
        assert(decreases_to!(*v => *x));
        let c = AbiInput {
            name: x.name.clone(),
            type_text: x.type_text.clone(),
            components: clone_inputs(&x.components),
            indexed: x.indexed,
        };
        assert(c@ == x@);
        out.push(c);
        i += 1;
    }
    assert(inputs_v(out@) =~= inputs_v(v@));
    out
}

/// One entry of the ABI. Keys that do not belong to the kind of the entry are
/// left out.
#[derive(Debug)]
pub struct AbiEntry {
    pub entry_type: String,
    pub name: String,
    pub inputs: Vec<AbiInput>,
    pub outputs: Option<Vec<AbiInput>>,
    pub state_mutability: Option<String>,
    pub anonymous: Option<bool>,
}

/// The view of an [`AbiEntry`].
pub struct EntryV {
    pub entry_type: Seq<char>,
    pub name: Seq<char>,
    pub inputs: Seq<InputV>,
    pub outputs: Option<Seq<InputV>>,
    pub state_mutability: Option<Seq<char>>,
    pub anonymous: Option<bool>,
}

impl AbiEntry {
    pub open spec fn view(&self) -> EntryV {
        EntryV {
            entry_type: self.entry_type@,
            name: self.name@,
            inputs: inputs_v(self.inputs@),
            outputs: match self.outputs {
                Some(v) => Some(inputs_v(v@)),
                None => None,
            },
            state_mutability: opt_text(self.state_mutability),
            anonymous: self.anonymous,
        }
    }
}

pub open spec fn entries_v(s: Seq<AbiEntry>) -> Seq<EntryV> {
    Seq::new(s.len(), |i: int| s[i]@)
}

/// How the JSON ABI spells a type. A class is a `tuple`, but `Account` is an
/// address; a fixed byte string is `bytesN`; an enum is its tag.
pub open spec fn map_type_spec(w: WorldV, t: TypeV) -> Seq<char>
    decreases t,
{
    match t {
        TypeV::Primitive(n) => if uint_name(n) {
            "uint"@ + n.drop_first()
        } else if sint_name(n) {
            "int"@ + n.drop_first()
        } else if n == "Address"@ || n == "Account"@ {
            "address"@
        } else if n == "bool"@ {
            "bool"@
        } else if n == "f32"@ || n == "f64"@ {
            "int256"@
        } else if n == "Message"@ || n == "Block"@ {
            n
        } else if n == "String"@ {
            "string"@
        } else if n == "Bytes"@ {
            "bytes"@
        } else if byte_width_spec(n) is Some {
            "bytes"@ + dec(byte_width_spec(n)->0 as nat)
        } else if w.classes.contains_key(n) {
            "tuple"@
        } else if w.enums.contains_key(n) {
            "uint8"@
        } else {
            "uint256"@
        },
        TypeV::Array(inner) => map_type_spec(w, *inner) + "[]"@,
        TypeV::FixedArray(inner, n) => map_type_spec(w, *inner) + "["@ + dec(n as nat) + "]"@,
        TypeV::Generic { .. } => "uint256"@,
    }
}

/// How deep classes can nest: a class that does not contain itself has at most
/// this many levels.
pub open spec fn depth(w: WorldV) -> nat {
    w.classes.dom().len()
}

/// A type as a signature spells it, with classes opened `d` levels deep.
pub open spec fn sig_within(w: WorldV, t: TypeV, d: nat) -> Seq<char>
    decreases d, 0nat, t,
{
    match t {
        TypeV::Array(inner) => sig_within(w, *inner, d) + "[]"@,
        TypeV::FixedArray(inner, n) => sig_within(w, *inner, d) + "["@ + dec(n as nat) + "]"@,
        TypeV::Primitive(n) => if map_type_spec(w, t) == "tuple"@ && d > 0 {
            "("@ + join_spec(
                sig_fields(w, w.classes[n].fields, w.classes[n].fields.len(), (d - 1) as nat),
                ","@,
            ) + ")"@
        } else {
            map_type_spec(w, t)
        },
        TypeV::Generic { .. } => map_type_spec(w, t),
    }
}

pub open spec fn sig_fields(w: WorldV, fs: Seq<FieldV>, n: nat, d: nat) -> Seq<Seq<char>>
    decreases d, n + 1, fs,
{
    if n == 0 {
        Seq::empty()
    } else {
        sig_fields(w, fs, (n - 1) as nat, d).push(sig_within(w, fs[n - 1].type_def, d))
    }
}

/// A type as a signature spells it: a class is the tuple of its fields.
pub open spec fn sig_spec(w: WorldV, t: TypeV) -> Seq<char> {
    sig_within(w, t, depth(w))
}

/// The components of a class, or of the class that an array holds, opened `d`
/// levels deep.
pub open spec fn parts_within(w: WorldV, t: TypeV, d: nat) -> Seq<InputV>
    decreases d, 0nat, t,
{
    match t {
        TypeV::Array(inner) => parts_within(w, *inner, d),
        TypeV::FixedArray(inner, _) => parts_within(w, *inner, d),
        TypeV::Primitive(n) => if n != "String"@ && n != "Bytes"@ && w.classes.contains_key(n) && d
            > 0 {
            field_parts(w, w.classes[n].fields, w.classes[n].fields.len(), (d - 1) as nat)
        } else {
            Seq::empty()
        },
        TypeV::Generic { .. } => Seq::empty(),
    }
}

pub open spec fn field_parts(w: WorldV, fs: Seq<FieldV>, n: nat, d: nat) -> Seq<InputV>
    decreases d, n + 1, fs,
{
    if n == 0 {
        Seq::empty()
    } else {
        field_parts(w, fs, (n - 1) as nat, d).push(
            plain_spec(
                fs[n - 1].name,
                map_type_spec(w, fs[n - 1].type_def),
                parts_within(w, fs[n - 1].type_def, d),
            ),
        )
    }
}

pub open spec fn parts_spec(w: WorldV, t: TypeV) -> Seq<InputV> {
    parts_within(w, t, depth(w))
}

/// Whether a parameter is made up at the call boundary rather than passed.
pub open spec fn context_type(t: TypeV) -> bool {
    t == TypeV::Primitive("Message"@) || t == TypeV::Primitive("Block"@)
}

pub fn is_context_param(t: &Type) -> (r: bool)
    ensures
        r == context_type(t@),
{
    match t {
        Type::Primitive(n) => same(n.as_str(), "Message") || same(n.as_str(), "Block"),
        _ => false,
    }
}

/// The inputs for the first `n` parameters; where `all` does not hold, the
/// ones made up at the call boundary are left out.
pub open spec fn params_parts(w: WorldV, ps: Seq<ParamV>, all: bool, n: nat) -> Seq<InputV>
    decreases n,
{
    if n == 0 {
        Seq::empty()
    } else {
        let out = params_parts(w, ps, all, (n - 1) as nat);
        let p = ps[n - 1];
        if !all && context_type(p.type_def) {
            out
        } else {
            out.push(plain_spec(p.name, map_type_spec(w, p.type_def), parts_spec(w, p.type_def)))
        }
    }
}

/// The spelled types of the first `n` parameters, without those made up at the
/// call boundary unless `all` holds.
pub open spec fn params_sig(w: WorldV, ps: Seq<ParamV>, all: bool, n: nat) -> Seq<Seq<char>>
    decreases n,
{
    if n == 0 {
        Seq::empty()
    } else {
        let out = params_sig(w, ps, all, (n - 1) as nat);
        if !all && context_type(ps[n - 1].type_def) {
            out
        } else {
            out.push(sig_spec(w, ps[n - 1].type_def))
        }
    }
}

/// What is hashed for a selector.
pub open spec fn signature_spec(w: WorldV, name: Seq<char>, ps: Seq<ParamV>, all: bool) -> Seq<char> {
    name + "("@ + join_spec(params_sig(w, ps, all, ps.len()), ","@) + ")"@
}

/// The first four bytes of the hash of a signature.
pub open spec fn call_selector(w: WorldV, name: Seq<char>, ps: Seq<ParamV>, all: bool) -> Seq<char> {
    selector_spec(keccak256(encode_utf8(signature_spec(w, name, ps, all))))
}

/// Whether a function can be called from outside: it is exported, or a test.
pub open spec fn exported(f: FnV) -> bool {
    f.modifiers.contains("export"@) || f.attributes.contains("Test"@)
}

pub fn is_exported(f: &FnDecl) -> (r: bool)
    ensures
        r == exported(f@),
{
    has_text(&f.modifiers, "export") || has_text(&f.attributes, "Test")
}

/// The entry of an exported function. `receive` and `fallback` are reached
/// without a selector and have entries of their own kind.
pub open spec fn method_entry(w: WorldV, f: FnV, muts: Map<Seq<char>, Mut>) -> EntryV {
    if f.name == "receive"@ || f.name == "fallback"@ {
        EntryV {
            entry_type: f.name,
            name: Seq::empty(),
            inputs: Seq::empty(),
            outputs: Some(Seq::empty()),
            state_mutability: Some(
                if f.modifiers.contains("payable"@) {
                    "payable"@
                } else {
                    "nonpayable"@
                },
            ),
            anonymous: None,
        }
    } else {
        EntryV {
            entry_type: "function"@,
            name: f.name,
            inputs: params_parts(w, f.parameters, false, f.parameters.len()),
            outputs: Some(
                match f.return_type {
                    Some(t) => seq![plain_spec(Seq::empty(), map_type_spec(w, t), parts_spec(w, t))],
                    None => Seq::empty(),
                },
            ),
            state_mutability: Some(mutability_spec(f, muts)),
            anonymous: None,
        }
    }
}

pub open spec fn method_entries(w: WorldV, ms: Seq<FnV>, muts: Map<Seq<char>, Mut>, n: nat) -> Seq<
    EntryV,
>
    decreases n,
{
    if n == 0 {
        Seq::empty()
    } else {
        let out = method_entries(w, ms, muts, (n - 1) as nat);
        if exported(ms[n - 1]) {
            out.push(method_entry(w, ms[n - 1], muts))
        } else {
            out
        }
    }
}

pub open spec fn error_entry(w: WorldV, name: Seq<char>, ps: Seq<ParamV>) -> EntryV {
    EntryV {
        entry_type: "error"@,
        name,
        inputs: params_parts(w, ps, true, ps.len()),
        outputs: None,
        state_mutability: None,
        anonymous: None,
    }
}

pub open spec fn error_entries(w: WorldV, ds: Seq<DeclV>, n: nat) -> Seq<EntryV>
    decreases n,
{
    if n == 0 {
        Seq::empty()
    } else {
        let out = error_entries(w, ds, (n - 1) as nat);
        match ds[n - 1] {
            DeclV::Error(e) => out.push(error_entry(w, e.name, e.parameters)),
            _ => out,
        }
    }
}

pub open spec fn constructor_entries(w: WorldV, c: ClassV) -> Seq<EntryV> {
    match method_named(c.methods, "new"@) {
        Some(f) => seq![
            EntryV {
                entry_type: "constructor"@,
                name: Seq::empty(),
                inputs: params_parts(w, f.parameters, false, f.parameters.len()),
                outputs: Some(Seq::empty()),
                state_mutability: Some("nonpayable"@),
                anonymous: None,
            },
        ],
        None => Seq::empty(),
    }
}

/// The ABI of a contract: its constructor, its exported functions, and the
/// errors that the program declares.
pub open spec fn abi_spec(w: WorldV, ds: Seq<DeclV>, c: ClassV, muts: Map<Seq<char>, Mut>) -> Seq<
    EntryV,
> {
    constructor_entries(w, c) + method_entries(w, c.methods, muts, c.methods.len()) + error_entries(
        w,
        ds,
        ds.len(),
    )
}

pub open spec fn event_entry_spec(name: Seq<char>, inputs: Seq<InputV>) -> EntryV {
    EntryV {
        entry_type: "event"@,
        name,
        inputs,
        outputs: None,
        state_mutability: None,
        anonymous: Some(false),
    }
}

pub struct AbiGenerator<'a> {
    pub type_checker: &'a TypeChecker,
}

impl<'a> AbiGenerator<'a> {
    pub open spec fn world(&self) -> WorldV {
        self.type_checker.world()
    }

    pub fn new(type_checker: &'a TypeChecker) -> (r: Self)
        ensures
            r.world() == type_checker.world(),
            r.type_checker == type_checker,
    {
        AbiGenerator { type_checker }
    }

    /// The spelling of a type in the JSON ABI.
    pub fn map_type(&self, type_def: &Type) -> (r: String)
        ensures
            r@ == map_type_spec(self.world(), type_def@),
        decreases type_def,
    {
        match type_def {
            Type::Primitive(name) => {
                let n = name.as_str();
                if is_uint_name(n) {
                    proof {
                        lemma_names_long(n@);
                    }
                    cat2("uint", rest(n).as_str())
                } else if is_sint_name(n) {
                    proof {
                        lemma_names_long(n@);
                    }
                    cat2("int", rest(n).as_str())
                } else if same(n, "Address") || same(n, "Account") {
                    String::from_str("address")
                } else if same(n, "bool") {
                    String::from_str("bool")
                } else if same(n, "f32") || same(n, "f64") {
                    String::from_str("int256")
                } else if same(n, "Message") || same(n, "Block") {
                    name.clone()
                } else if same(n, "String") {
                    String::from_str("string")
                } else if same(n, "Bytes") {
                    String::from_str("bytes")
                } else {
                    match byte_width(n) {
                        Some(k) => cat2("bytes", dec_text(k).as_str()),
                        None => if self.type_checker.loaded_classes.has(n) {
                            String::from_str("tuple")
                        } else if self.type_checker.loaded_enums.has(n) {
                            String::from_str("uint8")
                        } else {
                            String::from_str("uint256")
                        },
                    }
                }
            },
            Type::Array(inner) => cat2(self.map_type(inner).as_str(), "[]"),
            Type::FixedArray(inner, n) => cat4(
                self.map_type(inner).as_str(),
                "[",
                dec_text(*n).as_str(),
                "]",
            ),
            Type::Generic { .. } => String::from_str("uint256"),
        }
    }

    fn sig_deep(&self, t: &Type, d: usize) -> (r: String)
        ensures
            r@ == sig_within(self.world(), t@, d as nat),
        decreases d, 0nat, t,
    {
        match t {
            Type::Array(inner) => cat2(self.sig_deep(inner, d).as_str(), "[]"),
            Type::FixedArray(inner, n) => cat4(
                self.sig_deep(inner, d).as_str(),
                "[",
                dec_text(*n).as_str(),
                "]",
            ),
            Type::Primitive(name) => {
                let base = self.map_type(t);
                if same(base.as_str(), "tuple") && d > 0 {
                    match self.type_checker.loaded_classes.get(name.as_str()) {
                        Some(c) => {
                            assert(self.world().classes[name@] == c@);
                            let parts = self.sig_parts(&c.fields, d - 1);
                            return cat3("(", join(&parts, ",").as_str(), ")");
                        },
                        None => {
                            proof {
                                lemma_tuple_is_class(self.world(), t@);
                            }
                        },
                    }
                }
                base
            },
            Type::Generic { .. } => self.map_type(t),
        }
    }

    fn sig_parts(&self, fs: &Vec<ClassField>, d: usize) -> (r: Vec<String>)
        ensures
            texts(r@) == sig_fields(self.world(), fields_v(fs@), fs@.len(), d as nat),
        decreases d, 1nat, fs,
    {
        let mut out: Vec<String> = Vec::new();
        let mut i: usize = 0;
        assert(texts(out@) =~= Seq::<Seq<char>>::empty());
        while i < fs.len()
            invariant
                i <= fs@.len(),
                texts(out@) == sig_fields(self.world(), fields_v(fs@), i as nat, d as nat),
            decreases fs@.len() - i,
        {
            let ghost before = texts(out@);
            let s = self.sig_deep(&fs[i].type_def, d);
            let ghost sv = s@;
            out.push(s);
            assert(texts(out@) =~= before.push(sv));
            i += 1;
        }
        out
    }

    /// The spelling of a type in a signature.
    pub fn signature_type(&self, type_def: &Type) -> (r: String)
        ensures
            r@ == sig_spec(self.world(), type_def@),
    {
        self.sig_deep(type_def, class_count(self.type_checker))
    }

    fn parts_deep(&self, t: &Type, d: usize) -> (r: Vec<AbiInput>)
        ensures
            inputs_v(r@) == parts_within(self.world(), t@, d as nat),
        decreases d, 0nat, t,
    {
        match t {
            Type::Array(inner) => self.parts_deep(inner, d),
            Type::FixedArray(inner, _) => self.parts_deep(inner, d),
            Type::Primitive(n) => {
                if !same(n.as_str(), "String") && !same(n.as_str(), "Bytes") && d > 0 {
                    match self.type_checker.loaded_classes.get(n.as_str()) {
                        Some(c) => {
                            assert(self.world().classes[n@] == c@);
                            return self.fields_deep(&c.fields, d - 1);
                        },
                        None => {},
                    }
                }
                let out: Vec<AbiInput> = Vec::new();
                assert(inputs_v(out@) =~= Seq::<InputV>::empty());
                out
            },
            Type::Generic { .. } => {
                let out: Vec<AbiInput> = Vec::new();
                assert(inputs_v(out@) =~= Seq::<InputV>::empty());
                out
            },
        }
    }

    fn fields_deep(&self, fs: &Vec<ClassField>, d: usize) -> (r: Vec<AbiInput>)
        ensures
            inputs_v(r@) == field_parts(self.world(), fields_v(fs@), fs@.len(), d as nat),
        decreases d, 1nat, fs,
    {
        let mut out: Vec<AbiInput> = Vec::new();
        let mut i: usize = 0;
        assert(inputs_v(out@) =~= Seq::<InputV>::empty());
        while i < fs.len()
            invariant
                i <= fs@.len(),
                inputs_v(out@) == field_parts(self.world(), fields_v(fs@), i as nat, d as nat),
            decreases fs@.len() - i,
        {
            let f = &fs[i];
            assert(fields_v(fs@)[i as int] == f@);
            let ghost before = out@;
            let x = AbiInput::plain(
                f.name.clone(),
                self.map_type(&f.type_def),
                self.parts_deep(&f.type_def, d),
            );
            proof {
                lemma_inputs_push(before, x);
            }
            out.push(x);
            i += 1;
        }
        out
    }

    /// The components of a class, or of the class that an array holds.
    pub fn generate_components(&self, type_def: &Type) -> (r: Vec<AbiInput>)
        ensures
            inputs_v(r@) == parts_spec(self.world(), type_def@),
    {
        self.parts_deep(type_def, class_count(self.type_checker))
    }

    fn param_inputs(&self, ps: &Vec<Parameter>, all: bool) -> (r: Vec<AbiInput>)
        ensures
            inputs_v(r@) == params_parts(self.world(), params_v(ps@), all, ps@.len()),
    {
        let mut out: Vec<AbiInput> = Vec::new();
        let mut i: usize = 0;
        assert(inputs_v(out@) =~= Seq::<InputV>::empty());
        while i < ps.len()
            invariant
                i <= ps@.len(),
                inputs_v(out@) == params_parts(self.world(), params_v(ps@), all, i as nat),
            decreases ps@.len() - i,
        {
            let p = &ps[i];
            assert(params_v(ps@)[i as int] == p@);
            if all || !is_context_param(&p.type_def) {
                let ghost before = out@;
                let x = AbiInput::plain(
                    p.name.clone(),
                    self.map_type(&p.type_def),
                    self.generate_components(&p.type_def),
                );
                proof {
                    lemma_inputs_push(before, x);
                }
                out.push(x);
            }
            i += 1;
        }
        out
    }

    fn method_abi(&self, f: &FnDecl, muts: &NameMap<Mut>) -> (r: AbiEntry)
        ensures
            r@ == method_entry(self.world(), f@, muts@),
    {
        let none: Vec<AbiInput> = Vec::new();
        let ghost nv = inputs_v(none@);
        assert(nv =~= Seq::<InputV>::empty());
        assert(""@ =~= Seq::<char>::empty()) by {
            reveal_strlit("");
        }
        if same(f.name.as_str(), "receive") || same(f.name.as_str(), "fallback") {
            let mutability = if has_text(&f.modifiers, "payable") {
                String::from_str("payable")
            } else {
                String::from_str("nonpayable")
            };
            let inputs: Vec<AbiInput> = Vec::new();
            assert(inputs_v(inputs@) =~= Seq::<InputV>::empty());
            return AbiEntry {
                entry_type: f.name.clone(),
                name: String::from_str(""),
                inputs,
                outputs: Some(none),
                state_mutability: Some(mutability),
                anonymous: None,
            };
        }
        let inputs = self.param_inputs(&f.parameters, false);
        let mut outputs: Vec<AbiInput> = none;
        match &f.return_type {
            Some(t) => {
                let ghost before = outputs@;
                let x = AbiInput::plain(
                    String::from_str(""),
                    self.map_type(t),
                    self.generate_components(t),
                );
                proof {
                    lemma_inputs_push(before, x);
                    assert(nv.push(x@) =~= seq![x@]);
                }
                outputs.push(x);
            },
            None => {},
        }
        AbiEntry {
            entry_type: String::from_str("function"),
            name: f.name.clone(),
            inputs,
            outputs: Some(outputs),
            state_mutability: Some(String::from_str(state_mutability(f, muts))),
            anonymous: None,
        }
    }

    /// The ABI of one contract, without its events, which the caller appends.
    pub fn generate_abi(&self, program: &Program, class: &ClassDecl, muts: &NameMap<Mut>) -> (r: Vec<
        AbiEntry,
    >)
        ensures
            entries_v(r@) == abi_spec(self.world(), decls_v(program.declarations@), class@, muts@),
    {
        let ghost w = self.world();
        let mut out: Vec<AbiEntry> = Vec::new();
        assert(entries_v(out@) =~= Seq::<EntryV>::empty());
        match find_method(&class.methods, "new") {
            Some(i) => {
                let f = &class.methods[i];
                let none: Vec<AbiInput> = Vec::new();
                assert(inputs_v(none@) =~= Seq::<InputV>::empty());
                assert(""@ =~= Seq::<char>::empty()) by {
                    reveal_strlit("");
                }
                let e = AbiEntry {
                    entry_type: String::from_str("constructor"),
                    name: String::from_str(""),
                    inputs: self.param_inputs(&f.parameters, false),
                    outputs: Some(none),
                    state_mutability: Some(String::from_str("nonpayable")),
                    anonymous: None,
                };
                out.push(e);
                assert(entries_v(out@) =~= seq![e@]);
            },
            None => {},
        }
        let ghost ctor = entries_v(out@);
        assert(ctor == constructor_entries(w, class@));
        let ms = &class.methods;
        let mut i: usize = 0;
        assert(ctor + method_entries(w, class@.methods, muts@, 0) =~= ctor);
        while i < ms.len()
            invariant
                i <= ms@.len(),
                w == self.world(),
                *ms == class.methods,
                entries_v(out@) == ctor + method_entries(w, class@.methods, muts@, i as nat),
            decreases ms@.len() - i,
        {
            let f = &ms[i];
            assert(class@.methods[i as int] == f@);
            if is_exported(f) {
                let ghost before = entries_v(out@);
                let e = self.method_abi(f, muts);
                out.push(e);
                assert(entries_v(out@) =~= before.push(e@));
                assert(entries_v(out@) =~= ctor + method_entries(
                    w,
                    class@.methods,
                    muts@,
                    (i + 1) as nat,
                ));
            }
            i += 1;
        }
        let ghost head = entries_v(out@);
        let ghost ds = decls_v(program.declarations@);
        assert(head + error_entries(w, ds, 0) =~= head);
        let mut k: usize = 0;
        while k < program.declarations.len()
            invariant
                k <= program.declarations@.len(),
                w == self.world(),
                ds == decls_v(program.declarations@),
                entries_v(out@) == head + error_entries(w, ds, k as nat),
            decreases program.declarations@.len() - k,
        {
            let d = &program.declarations[k];
            assert(ds[k as int] == d@);
            match d {
                Declaration::Error(e) => {
                    let ghost before = entries_v(out@);
                    let x = AbiEntry {
                        entry_type: String::from_str("error"),
                        name: e.name.clone(),
                        inputs: self.param_inputs(&e.parameters, true),
                        outputs: None,
                        state_mutability: None,
                        anonymous: None,
                    };
                    assert(x@ == error_entry(w, e.name@, params_v(e.parameters@)));
                    out.push(x);
                    assert(entries_v(out@) =~= before.push(x@));
                    assert(entries_v(out@) =~= head + error_entries(w, ds, (k + 1) as nat));
                },
                _ => {},
            }
            k += 1;
        }
        out
    }

    /// The entry of one event.
    pub fn event_entry(name: &str, inputs: Vec<AbiInput>) -> (r: AbiEntry)
        ensures
            r@ == event_entry_spec(name@, inputs_v(inputs@)),
    {
        AbiEntry {
            entry_type: String::from_str("event"),
            name: String::from_str(name),
            inputs,
            outputs: None,
            state_mutability: None,
            anonymous: Some(false),
        }
    }

    fn selector_of(&self, name: &str, ps: &Vec<Parameter>, all: bool) -> (r: String)
        ensures
            r@ == call_selector(self.world(), name@, params_v(ps@), all),
    {
        let mut parts: Vec<String> = Vec::new();
        let mut i: usize = 0;
        assert(texts(parts@) =~= Seq::<Seq<char>>::empty());
        while i < ps.len()
            invariant
                i <= ps@.len(),
                texts(parts@) == params_sig(self.world(), params_v(ps@), all, i as nat),
            decreases ps@.len() - i,
        {
            let p = &ps[i];
            assert(params_v(ps@)[i as int] == p@);
            if all || !is_context_param(&p.type_def) {
                let ghost before = texts(parts@);
                let s = self.signature_type(&p.type_def);
                let ghost sv = s@;
                parts.push(s);
                assert(texts(parts@) =~= before.push(sv));
            }
            i += 1;
        }
        let sig = cat4(name, "(", join(&parts, ",").as_str(), ")");
        let h = keccak(sig.as_str().as_bytes());
        selector_text(&h)
    }

    /// The selector of an entry point.
    pub fn calculate_selector(&self, f: &FnDecl) -> (r: String)
        ensures
            r@ == call_selector(self.world(), f.name@, params_v(f.parameters@), false),
    {
        self.selector_of(f.name.as_str(), &f.parameters, false)
    }

    /// The selector of a call with these parameters.
    pub fn params_selector(&self, name: &str, ps: &Vec<Parameter>) -> (r: String)
        ensures
            r@ == call_selector(self.world(), name@, params_v(ps@), false),
    {
        self.selector_of(name, ps, false)
    }

    /// The selector of a custom error with these fields.
    pub fn calculate_error_selector(&self, name: &str, ps: &Vec<Parameter>) -> (r: String)
        ensures
            r@ == call_selector(self.world(), name@, params_v(ps@), true),
    {
        self.selector_of(name, ps, true)
    }
}

proof fn lemma_names_long(n: Seq<char>)
    requires
        uint_name(n) || sint_name(n),
    ensures
        n.len() > 0,
{
    reveal_strlit("u8");
    reveal_strlit("u16");
    reveal_strlit("u32");
    reveal_strlit("u64");
    reveal_strlit("u128");
    reveal_strlit("u256");
    reveal_strlit("i8");
    reveal_strlit("i16");
    reveal_strlit("i32");
    reveal_strlit("i64");
    reveal_strlit("i128");
    reveal_strlit("i256");
}

/// Only a class is spelled `tuple`.
proof fn lemma_tuple_is_class(w: WorldV, t: TypeV)
    requires
        t is Primitive,
        map_type_spec(w, t) == "tuple"@,
    ensures
        w.classes.contains_key(t->Primitive_0),
{
    let n = t->Primitive_0;
    reveal_strlit("tuple");
    reveal_strlit("uint");
    reveal_strlit("int");
    reveal_strlit("address");
    reveal_strlit("bool");
    reveal_strlit("int256");
    reveal_strlit("Message");
    reveal_strlit("Block");
    reveal_strlit("string");
    reveal_strlit("bytes");
    reveal_strlit("uint8");
    reveal_strlit("uint256");
    let s = map_type_spec(w, t);
    assert(s[0] == 't');
    if uint_name(n) {
        assert(s[0] == 'u');
    } else if sint_name(n) {
        assert(s[0] == 'i');
    } else if byte_width_spec(n) is Some && n != "Address"@ && n != "Account"@ && n != "bool"@ && n
        != "f32"@ && n != "f64"@ && n != "Message"@ && n != "Block"@ && n != "String"@ && n
        != "Bytes"@ {
        assert(s[0] == 'b');
    } else if n == "Message"@ {
        assert(s[0] == 'M');
    } else if n == "Block"@ {
        assert(s[0] == 'B');
    }
}

/// The ABI has an entry for each function that can be called from outside, and for no
/// other: a function that is not exported is internal.
pub proof fn law_entries_are_exports(
    w: WorldV,
    ms: Seq<FnV>,
    muts: Map<Seq<char>, Mut>,
    n: nat,
)
    requires
        n <= ms.len(),
    ensures
        forall|i: int|
            0 <= i < n && exported(#[trigger] ms[i]) ==> method_entries(w, ms, muts, n).contains(
                method_entry(w, ms[i], muts),
            ),
        forall|e: EntryV| #[trigger]
            method_entries(w, ms, muts, n).contains(e) ==> exists|i: int|
                0 <= i < n && exported(#[trigger] ms[i]) && e == method_entry(w, ms[i], muts),
    decreases n,
{
    if n > 0 {
        law_entries_are_exports(w, ms, muts, (n - 1) as nat);
        let a = method_entries(w, ms, muts, (n - 1) as nat);
        let b = method_entries(w, ms, muts, n);
        assert forall|i: int| 0 <= i < n && exported(#[trigger] ms[i]) implies b.contains(
            method_entry(w, ms[i], muts),
        ) by {
            let e = method_entry(w, ms[i], muts);
            if i < n - 1 {
                assert(a.contains(e));
                let k = choose|k: int| 0 <= k < a.len() && a[k] == e;
                assert(b[k] == e);
            } else {
                assert(b[a.len() as int] == e);
            }
        }
        assert forall|e: EntryV| #[trigger] b.contains(e) implies exists|i: int|
            0 <= i < n && exported(#[trigger] ms[i]) && e == method_entry(w, ms[i], muts) by {
            let k = choose|k: int| 0 <= k < b.len() && b[k] == e;
            if k < a.len() {
                assert(a[k] == e);
                assert(a.contains(e));
                let i = choose|i: int|
                    0 <= i < n - 1 && exported(#[trigger] ms[i]) && e == method_entry(
                        w,
                        ms[i],
                        muts,
                    );
                assert(exported(ms[i]));
            } else {
                assert(exported(ms[n - 1]));
            }
        }
    } else {
        assert forall|e: EntryV| #[trigger]
            method_entries(w, ms, muts, n).contains(e) implies false by {
            let k = choose|k: int|
                0 <= k < method_entries(w, ms, muts, n).len() && method_entries(w, ms, muts, n)[k]
                    == e;
        }
    }
}

} // verus!
