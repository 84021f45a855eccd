//! The translator: what code generation knows while it turns one contract into
//! Yul, and what it gathers on the way.
//!
//! Each translation is stated as a function of what is known (`EnvV`), what has
//! been gathered so far (`StV`) and where the code stands (`CtxV`).
use crate::ast::{
    field_named, find_field, find_method, find_variant, method_named, opt_type_v, params_v,
    variant_index, variant_named, ClassDecl, ClassV, FnDecl, FnV, ParamV, Parameter, Type, TypeV,
};
use crate::codegen::abi::{call_selector, inputs_v, AbiGenerator, AbiInput, InputV};
use crate::codegen::layout::{LayV, LayoutEngine};
use crate::codegen::yul::{mask_for_type, mask_spec, opt_text};
use crate::names::{lemma_sorted, sorted, NameMap, NameSet, SortedMap};
use crate::semantic::{type_map_v, WorldV};
use crate::text::{cat7, same, texts};
use vstd::prelude::*;

verus! {

/// The class whose method is being translated.
pub struct SelfCtx {
    pub class_name: String,
    pub is_global: bool,
}

/// Where the code being translated stands.
pub struct Ctx<'c> {
    pub self_ctx: Option<&'c SelfCtx>,
    /// Whether `return` leaves the contract rather than a function.
    pub is_entry: bool,
    pub try_ok_var: Option<String>,
    pub locals: NameMap<Type>,
    pub return_type: Option<Type>,
    pub lock_slot: Option<String>,
    pub in_constructor: bool,
}

/// The view of a [`Ctx`].
pub struct CtxV {
    /// The class of `self`, and whether it is a contract.
    pub self_ctx: Option<(Seq<char>, bool)>,
    pub is_entry: bool,
    pub try_ok_var: Option<Seq<char>>,
    pub locals: Map<Seq<char>, TypeV>,
    pub return_type: Option<TypeV>,
    pub lock_slot: Option<Seq<char>>,
    pub in_constructor: bool,
}

pub open spec fn self_v(s: Option<&SelfCtx>) -> Option<(Seq<char>, bool)> {
    match s {
        Some(s) => Some((s.class_name@, s.is_global)),
        None => None,
    }
}

/// The context in which nothing is known yet.
pub open spec fn entry_spec(lock: Option<Seq<char>>) -> CtxV {
    CtxV {
        self_ctx: None,
        is_entry: true,
        try_ok_var: None,
        locals: Map::empty(),
        return_type: None,
        lock_slot: lock,
        in_constructor: false,
    }
}

pub open spec fn helper_spec(s: Option<(Seq<char>, bool)>) -> CtxV {
    CtxV {
        self_ctx: s,
        is_entry: false,
        try_ok_var: None,
        locals: Map::empty(),
        return_type: None,
        lock_slot: None,
        in_constructor: false,
    }
}

pub open spec fn declare_spec(cx: CtxV, name: Seq<char>, t: TypeV) -> CtxV {
    CtxV { locals: cx.locals.insert(name, t), ..cx }
}

impl<'c> Ctx<'c> {
    pub open spec fn view(&self) -> CtxV {
        CtxV {
            self_ctx: self_v(self.self_ctx),
            is_entry: self.is_entry,
            try_ok_var: opt_text(self.try_ok_var),
            locals: type_map_v(self.locals@),
            return_type: opt_type_v(self.return_type),
            lock_slot: opt_text(self.lock_slot),
            in_constructor: self.in_constructor,
        }
    }

    /// The body of an entry point.
    pub fn entry(lock_slot: Option<String>) -> (r: Self)
        ensures
            r@ == entry_spec(opt_text(lock_slot)),
    {
        let r = Ctx {
            self_ctx: None,
            is_entry: true,
            try_ok_var: None,
            locals: NameMap::new(),
            return_type: None,
            lock_slot,
            in_constructor: false,
        };
        assert(r@.locals =~= Map::<Seq<char>, TypeV>::empty());
        r
    }

    /// The body of an internal function.
    pub fn helper(self_ctx: Option<&'c SelfCtx>) -> (r: Self)
        ensures
            r@ == helper_spec(self_v(self_ctx)),
    {
        let r = Ctx {
            self_ctx,
            is_entry: false,
            try_ok_var: None,
            locals: NameMap::new(),
            return_type: None,
            lock_slot: None,
            in_constructor: false,
        };
        assert(r@.locals =~= Map::<Seq<char>, TypeV>::empty());
        r
    }

    pub fn in_constructor(self, yes: bool) -> (r: Self)
        ensures
            r@ == (CtxV { in_constructor: yes, ..self@ }),
    {
        Ctx { in_constructor: yes, ..self }
    }

    pub fn with_self(self, self_ctx: Option<&'c SelfCtx>) -> (r: Self)
        ensures
            r@ == (CtxV { self_ctx: self_v(self_ctx), ..self@ }),
    {
        Ctx { self_ctx, ..self }
    }

    pub fn with_return_type(self, ty: Option<Type>) -> (r: Self)
        ensures
            r@ == (CtxV { return_type: opt_type_v(ty), ..self@ }),
    {
        Ctx { return_type: ty, ..self }
    }

    /// Adds a local, or gives a known one a new type.
    pub fn declare(&mut self, name: &str, type_def: &Type)
        ensures
            final(self)@ == declare_spec(old(self)@, name@, type_def@),
    {
        let ghost before = self.locals@;
        self.locals.insert(String::from_str(name), type_def.clone());
        assert(type_map_v(self.locals@) =~= type_map_v(before).insert(name@, type_def@));
    }

    /// The same place.
    pub fn copy(&self) -> (r: Self)
        ensures
            r@ == self@,
    {
        Ctx {
            self_ctx: self.self_ctx,
            is_entry: self.is_entry,
            try_ok_var: crate::ast::clone_opt_text(&self.try_ok_var),
            locals: clone_locals(&self.locals),
            return_type: crate::ast::clone_opt_type(&self.return_type),
            lock_slot: crate::ast::clone_opt_text(&self.lock_slot),
            in_constructor: self.in_constructor,
        }
    }

    /// The same place, inside a `try` block.
    pub fn inside_try(&self, ok_var: &str) -> (r: Self)
        ensures
            r@ == (CtxV { try_ok_var: Some(ok_var@), ..self@ }),
    {
        let r = Ctx {
            self_ctx: self.self_ctx,
            is_entry: self.is_entry,
            try_ok_var: Some(String::from_str(ok_var)),
            locals: clone_locals(&self.locals),
            return_type: crate::ast::clone_opt_type(&self.return_type),
            lock_slot: crate::ast::clone_opt_text(&self.lock_slot),
            in_constructor: self.in_constructor,
        };
        r
    }
}

/// The class of `self`, where it is a contract.
pub open spec fn global_self_spec(cx: CtxV) -> Option<Seq<char>> {
    match cx.self_ctx {
        Some((c, g)) => if g {
            Some(c)
        } else {
            None
        },
        None => None,
    }
}

/// The class of `self`, where it is a value in memory.
pub open spec fn memory_self_spec(cx: CtxV) -> Option<Seq<char>> {
    match cx.self_ctx {
        Some((c, g)) => if g {
            None
        } else {
            Some(c)
        },
        None => None,
    }
}

pub open spec fn any_self_spec(cx: CtxV) -> Option<Seq<char>> {
    match cx.self_ctx {
        Some((c, _)) => Some(c),
        None => None,
    }
}

pub open spec fn local_type_spec(cx: CtxV, name: Seq<char>) -> Option<TypeV> {
    if cx.locals.contains_key(name) {
        Some(cx.locals[name])
    } else {
        None
    }
}

impl<'c> Ctx<'c> {
    pub fn global_self(&self) -> (r: Option<String>)
        ensures
            opt_text(r) == global_self_spec(self@),
    {
        match self.self_ctx {
            Some(s) => if s.is_global {
                Some(s.class_name.clone())
            } else {
                None
            },
            None => None,
        }
    }

    pub fn memory_self(&self) -> (r: Option<String>)
        ensures
            opt_text(r) == memory_self_spec(self@),
    {
        match self.self_ctx {
            Some(s) => if s.is_global {
                None
            } else {
                Some(s.class_name.clone())
            },
            None => None,
        }
    }

    pub fn any_self(&self) -> (r: Option<String>)
        ensures
            opt_text(r) == any_self_spec(self@),
    {
        match self.self_ctx {
            Some(s) => Some(s.class_name.clone()),
            None => None,
        }
    }

    pub fn local_type(&self, name: &str) -> (r: Option<Type>)
        ensures
            opt_type_v(r) == local_type_spec(self@, name@),
    {
        match self.locals.get(name) {
            Some(t) => Some(t.clone()),
            None => None,
        }
    }
}

fn clone_locals(m: &NameMap<Type>) -> (r: NameMap<Type>)
    ensures
        type_map_v(r@) == type_map_v(m@),
{
    let n = m.len();
    let mut out: NameMap<Type> = NameMap::new();
    let mut i: usize = 0;
    while i < n
        invariant
            i <= n,
            n == m.order().len(),
            forall|k: Seq<char>| #[trigger] m@.contains_key(k) <==> m.order().contains(k),
            m.order().no_duplicates(),
            forall|k: Seq<char>| #[trigger]
                out@.contains_key(k) <==> exists|j: int| 0 <= j < i && m.order()[j] == k,
            forall|k: Seq<char>| #[trigger] out@.contains_key(k) ==> out@[k]@ == m@[k]@,
        decreases n - i,
    {
        let ghost before = out@;
        let c = m.value_at(i).clone();
        out.insert(m.key_at(i).clone(), c);
        proof {
            assert forall|k: Seq<char>| #[trigger] out@.contains_key(k) implies exists|j: int|
                0 <= j < i + 1 && m.order()[j] == k by {
                if before.contains_key(k) {
                    let j = choose|j: int| 0 <= j < i && m.order()[j] == k;
                    assert(m.order()[j] == k);
                } else {
                    assert(m.order()[i as int] == k);
                }
            }
        }
        i += 1;
    }
    proof {
        assert forall|k: Seq<char>| #[trigger] out@.contains_key(k) <==> m@.contains_key(k) by {
            if m@.contains_key(k) {
                let j = choose|j: int| 0 <= j < m.order().len() && m.order()[j] == k;
                assert(m.order()[j] == k);
            }
        }
        assert(type_map_v(out@) =~= type_map_v(m@));
    }
    out
}

/// The shape in which an event is logged.
pub struct EventSchema {
    pub inputs: Vec<AbiInput>,
    pub signature: String,
}

/// The view of an [`EventSchema`].
pub struct SchemaV {
    pub inputs: Seq<InputV>,
    pub signature: Seq<char>,
}

impl EventSchema {
    pub open spec fn view(&self) -> SchemaV {
        SchemaV { inputs: inputs_v(self.inputs@), signature: self.signature@ }
    }
}

pub open spec fn schemas_v(m: Map<Seq<char>, EventSchema>) -> Map<Seq<char>, SchemaV> {
    Map::new(|k: Seq<char>| m.contains_key(k), |k: Seq<char>| m[k]@)
}

pub open spec fn text_map_v(m: Map<Seq<char>, String>) -> Map<Seq<char>, Seq<char>> {
    Map::new(|k: Seq<char>| m.contains_key(k), |k: Seq<char>| m[k]@)
}

/// Whether two inputs have the same shape; their names do not matter.
pub open spec fn input_shape_eq(a: InputV, b: InputV) -> bool
    decreases a,
{
    &&& a.type_text == b.type_text
    &&& a.indexed == b.indexed
    &&& inputs_shape_eq(a.components, b.components)
}

pub open spec fn inputs_shape_eq(a: Seq<InputV>, b: Seq<InputV>) -> bool
    decreases a,
{
    a.len() == b.len() && forall|i: int| 0 <= i < a.len() ==> input_shape_eq(#[trigger] a[i], b[i])
}

pub open spec fn event_shape_eq(a: SchemaV, b: SchemaV) -> bool {
    a.signature == b.signature && inputs_shape_eq(a.inputs, b.inputs)
}

fn abi_input_shape_eq(a: &AbiInput, b: &AbiInput) -> (r: bool)
    ensures
        r == input_shape_eq(a@, b@),
    decreases a, 0nat,
{
    same(a.type_text.as_str(), b.type_text.as_str()) && same_flag(a.indexed, b.indexed)
        && abi_inputs_shape_eq(&a.components, &b.components)
}

fn same_flag(a: Option<bool>, b: Option<bool>) -> (r: bool)
    ensures
        r == (a == b),
{
    match (a, b) {
        (Some(x), Some(y)) => x == y,
        (None, None) => true,
        _ => false,
    }
}

fn abi_inputs_shape_eq(a: &Vec<AbiInput>, b: &Vec<AbiInput>) -> (r: bool)
    ensures
        r == inputs_shape_eq(inputs_v(a@), inputs_v(b@)),
    decreases a, 1nat,
{
    if a.len() != b.len() {
        return false;
    }
    let mut i: usize = 0;
    while i < a.len()
        invariant
            i <= a@.len(),
            a@.len() == b@.len(),
            forall|k: int|
                0 <= k < i ==> input_shape_eq(#[trigger] inputs_v(a@)[k], inputs_v(b@)[k]),
        decreases a@.len() - i,
    {
        let x: &AbiInput = &a[i];
        assert(decreases_to!(*a => *x));
        assert(inputs_v(a@)[i as int] == x@);
        assert(inputs_v(b@)[i as int] == b@[i as int]@);
        if !abi_input_shape_eq(x, &b[i]) {
            return false;
        }
        i += 1;
    }
    true
}

/// What is known before translation starts.
pub struct EnvV {
    /// The program, as the layout reads it.
    pub w: WorldV,
    /// The program, as the ABI reads it.
    pub aw: WorldV,
    pub lay: LayV,
    /// The functions of the contract itself.
    pub top: Set<Seq<char>>,
    /// The functions outside any class.
    pub free: Set<Seq<char>>,
    /// Whether a failing check says why it fails.
    pub rich: bool,
}

/// What has been gathered so far.
pub struct StV {
    /// The helper functions that the code needs, by name.
    pub thunks: Map<Seq<char>, Seq<char>>,
    /// The last number handed out.
    pub id: usize,
    pub events: Map<Seq<char>, SchemaV>,
    pub errors: Seq<Seq<char>>,
}

pub open spec fn start_spec() -> StV {
    StV { thunks: Map::empty(), id: 0, events: Map::empty(), errors: Seq::empty() }
}

/// Asks for a helper; the first text given under a name stays.
pub open spec fn ensure_spec(st: StV, name: Seq<char>, src: Seq<char>) -> StV {
    if st.thunks.contains_key(name) {
        st
    } else {
        StV { thunks: st.thunks.insert(name, src), ..st }
    }
}

/// Hands out the next number.
pub open spec fn next_spec(st: StV) -> (StV, usize) {
    let id = st.id.wrapping_add(1);
    (StV { id, ..st }, id)
}

pub open spec fn error_spec(st: StV, message: Seq<char>) -> StV {
    StV { errors: st.errors.push(message), ..st }
}

/// Why an event cannot be recorded: it has been logged in another shape.
pub open spec fn event_clash(st: StV, name: Seq<char>, schema: SchemaV) -> Option<Seq<char>> {
    if st.events.contains_key(name) && !event_shape_eq(st.events[name], schema) {
        Some(
            "event '"@ + name + "' is logged with two different shapes: "@
                + st.events[name].signature + " and "@ + schema.signature
                + ". An event name maps to exactly one ABI entry, so every log() of it must pass the same field types and mark the same fields indexed."@,
        )
    } else {
        None
    }
}

/// Records the shape of an event, or the error that it has two.
pub open spec fn event_spec(st: StV, name: Seq<char>, schema: SchemaV) -> StV {
    match event_clash(st, name, schema) {
        Some(message) => error_spec(st, message),
        None => if st.events.contains_key(name) {
            st
        } else {
            StV { events: st.events.insert(name, schema), ..st }
        },
    }
}

pub struct Translator<'a> {
    pub layout_engine: &'a LayoutEngine<'a>,
    pub abi_gen: &'a AbiGenerator<'a>,
    pub top_level_fns: &'a NameSet,
    pub free_fns: &'a NameSet,
    pub helper_thunks: SortedMap<String>,
    pub literal_counter: usize,
    pub rich_reverts: bool,
    pub events: SortedMap<EventSchema>,
    pub errors: Vec<String>,
}

impl<'a> Translator<'a> {
    pub open spec fn env(&self) -> EnvV {
        EnvV {
            w: self.layout_engine.world(),
            aw: self.abi_gen.world(),
            lay: self.layout_engine.lay(),
            top: self.top_level_fns@,
            free: self.free_fns@,
            rich: self.rich_reverts,
        }
    }

    pub open spec fn st(&self) -> StV {
        StV {
            thunks: text_map_v(self.helper_thunks@),
            id: self.literal_counter,
            events: schemas_v(self.events@),
            errors: texts(self.errors@),
        }
    }

    pub fn new(
        layout_engine: &'a LayoutEngine<'a>,
        abi_gen: &'a AbiGenerator<'a>,
        top_level_fns: &'a NameSet,
        free_fns: &'a NameSet,
        rich_reverts: bool,
    ) -> (r: Self)
        ensures
            r.st() == start_spec(),
            r.env() == (EnvV {
                w: layout_engine.world(),
                aw: abi_gen.world(),
                lay: layout_engine.lay(),
                top: top_level_fns@,
                free: free_fns@,
                rich: rich_reverts,
            }),
    {
        let r = Translator {
            layout_engine,
            abi_gen,
            top_level_fns,
            free_fns,
            helper_thunks: SortedMap::new(),
            literal_counter: 0,
            rich_reverts,
            events: SortedMap::new(),
            errors: Vec::new(),
        };
        proof {
            assert(r.st().thunks =~= start_spec().thunks);
            assert(r.st().events =~= start_spec().events);
            assert(r.st().errors =~= start_spec().errors);
        }
        r
    }

    /// The errors so far; they are not handed out twice.
    pub fn take_errors(&mut self) -> (r: Vec<String>)
        ensures
            final(self).env() == old(self).env(),
            texts(r@) == old(self).st().errors,
            final(self).st() == (StV { errors: Seq::empty(), ..old(self).st() }),
    {
        let mut out: Vec<String> = Vec::new();
        std::mem::swap(&mut out, &mut self.errors);
        assert(self.st().errors =~= Seq::<Seq<char>>::empty());
        out
    }

    /// The recorded events in the order of their names.
    pub fn recorded_events(&self) -> (r: Vec<(String, EventSchema)>)
        ensures
            r@.len() == sorted(self.st().events.dom()).len(),
            forall|i: int|
                0 <= i < r@.len() ==> (#[trigger] r@[i]).0@ == sorted(self.st().events.dom())[i]
                    && r@[i].1@ == self.st().events[r@[i].0@],
    {
        let n = self.events.len();
        let ghost order = self.events.order();
        proof {
            assert forall|k: Seq<char>| #[trigger]
                order.contains(k) <==> self.st().events.dom().contains(k) by {
                assert(self.events@.contains_key(k) <==> order.contains(k));
            }
            lemma_sorted(order, self.st().events.dom());
        }
        let mut out: Vec<(String, EventSchema)> = Vec::new();
        let mut i: usize = 0;
        while i < n
            invariant
                i <= n,
                n == order.len(),
                order == self.events.order(),
                out@.len() == i,
                forall|k: Seq<char>| #[trigger]
                    self.events@.contains_key(k) <==> order.contains(k),
                forall|j: int|
                    0 <= j < i ==> (#[trigger] out@[j]).0@ == order[j] && out@[j].1@
                        == self.st().events[order[j]],
            decreases n - i,
        {
            let s = self.events.value_at(i);
            let c = EventSchema {
                inputs: crate::codegen::abi::clone_inputs(&s.inputs),
                signature: s.signature.clone(),
            };
            assert(order.contains(order[i as int]));
            out.push((self.events.key_at(i).clone(), c));
            i += 1;
        }
        out
    }

    /// Records the shape of an event.
    pub fn record_event(&mut self, name: &str, schema: EventSchema) -> (r: Result<(), String>)
        ensures
            final(self).env() == old(self).env(),
            match r {
                Ok(_) => event_clash(old(self).st(), name@, schema@) is None && final(self).st()
                    == event_spec(old(self).st(), name@, schema@),
                Err(e) => event_clash(old(self).st(), name@, schema@) == Some(e@)
                    && final(self).st() == old(self).st(),
            },
    {
        match self.events.get(name) {
            Some(prev) => {
                assert(self.st().events[name@] == prev@);
                if same(prev.signature.as_str(), schema.signature.as_str()) && abi_inputs_shape_eq(
                    &prev.inputs,
                    &schema.inputs,
                ) {
                    return Ok(());
                }
                Err(
                    cat7(
                        "event '",
                        name,
                        "' is logged with two different shapes: ",
                        prev.signature.as_str(),
                        " and ",
                        schema.signature.as_str(),
                        ". An event name maps to exactly one ABI entry, so every log() of it must pass the same field types and mark the same fields indexed.",
                    ),
                )
            },
            None => {
                let ghost before = self.events@;
                let ghost sv = schema@;
                self.events.insert(String::from_str(name), schema);
                assert(self.st().events =~= schemas_v(before).insert(name@, sv));
                Ok(())
            },
        }
    }

    /// Records the shape of an event, or the error that it has two.
    pub fn note_event(&mut self, name: &str, schema: EventSchema)
        ensures
            final(self).env() == old(self).env(),
            final(self).st() == event_spec(old(self).st(), name@, schema@),
    {
        match self.record_event(name, schema) {
            Ok(_) => {},
            Err(e) => self.note_error(e),
        }
    }

    pub fn note_error(&mut self, message: String)
        ensures
            final(self).env() == old(self).env(),
            final(self).st() == error_spec(old(self).st(), message@),
    {
        let ghost before = texts(self.errors@);
        let ghost mv = message@;
        self.errors.push(message);
        assert(texts(self.errors@) =~= before.push(mv));
    }

    pub fn next_literal_id(&mut self) -> (r: usize)
        ensures
            final(self).env() == old(self).env(),
            next_spec(old(self).st()) == (final(self).st(), r),
    {
        self.literal_counter = self.literal_counter.wrapping_add(1);
        self.literal_counter
    }

    /// The helpers in the order of their names; they are not handed out twice.
    pub fn drain_helper_thunks(&mut self) -> (r: Vec<String>)
        ensures
            final(self).env() == old(self).env(),
            final(self).st() == (StV { thunks: Map::empty(), ..old(self).st() }),
            texts(r@) == sorted(old(self).st().thunks.dom()).map_values(
                |k: Seq<char>| old(self).st().thunks[k],
            ),
    {
        let ghost before = self.helper_thunks@;
        let ghost order = self.helper_thunks.order();
        let out = self.helper_thunks.drain();
        proof {
            assert(self.st().thunks =~= Map::<Seq<char>, Seq<char>>::empty());
            let dom = old(self).st().thunks.dom();
            assert forall|k: Seq<char>| #[trigger] order.contains(k) <==> dom.contains(k) by {
                assert(before.contains_key(k) <==> order.contains(k));
            }
            lemma_sorted(order, dom);
            assert forall|i: int| 0 <= i < order.len() implies #[trigger] texts(out@)[i]
                == old(self).st().thunks[order[i]] by {
                assert(order.contains(order[i]));
            }
            assert(texts(out@) =~= order.map_values(|k: Seq<char>| old(self).st().thunks[k]));
        }
        out
    }

    /// Asks for the helper `name`, whose text is `src`.
    pub fn ensure_helper(&mut self, name: &str, src: String)
        ensures
            final(self).env() == old(self).env(),
            final(self).st() == ensure_spec(old(self).st(), name@, src@),
    {
        if !self.helper_thunks.has(name) {
            let ghost before = self.helper_thunks@;
            let ghost sv = src@;
            self.helper_thunks.insert(String::from_str(name), src);
            assert(self.st().thunks =~= text_map_v(before).insert(name@, sv));
        }
    }

    /// Whether the helper `name` has been asked for.
    pub fn has_helper(&self, name: &str) -> (r: bool)
        ensures
            r == self.st().thunks.contains_key(name@),
    {
        self.helper_thunks.has(name)
    }
}

pub open spec fn class_of_spec(g: EnvV, name: Seq<char>) -> Option<ClassV> {
    if g.w.classes.contains_key(name) {
        Some(g.w.classes[name])
    } else {
        None
    }
}

pub open spec fn method_of_spec(g: EnvV, class: Seq<char>, method: Seq<char>) -> Option<FnV> {
    match class_of_spec(g, class) {
        Some(c) => method_named(c.methods, method),
        None => None,
    }
}

pub open spec fn field_type_spec(g: EnvV, class: Seq<char>, field: Seq<char>) -> Option<TypeV> {
    match class_of_spec(g, class) {
        Some(c) => match field_named(c.fields, field) {
            Some(f) => Some(f.type_def),
            None => None,
        },
        None => None,
    }
}

/// The declared return type of a top-level function.
pub open spec fn fn_type_spec(g: EnvV, name: Seq<char>) -> Option<TypeV> {
    if g.w.fn_types.contains_key(name) {
        Some(g.w.fn_types[name])
    } else {
        None
    }
}

/// The tag of a variant.
pub open spec fn variant_pos_spec(g: EnvV, name: Seq<char>, variant: Seq<char>) -> Option<usize> {
    if g.w.enums.contains_key(name) {
        match variant_index(g.w.enums[name].variants, variant, 0) {
            Some(i) => Some(i as usize),
            None => None,
        }
    } else {
        None
    }
}

pub open spec fn param_types(ps: Seq<ParamV>) -> Seq<TypeV> {
    ps.map_values(|p: ParamV| p.type_def)
}

pub open spec fn variant_types_spec(g: EnvV, name: Seq<char>, variant: Seq<char>) -> Option<
    Seq<TypeV>,
> {
    if g.w.enums.contains_key(name) {
        match variant_named(g.w.enums[name].variants, variant) {
            Some(v) => Some(param_types(v.parameters)),
            None => None,
        }
    } else {
        None
    }
}

/// The selector of a variant that is used as a custom error.
pub open spec fn variant_selector_spec(g: EnvV, name: Seq<char>, variant: Seq<char>) -> Seq<char> {
    if g.w.enums.contains_key(name) {
        match variant_named(g.w.enums[name].variants, variant) {
            Some(v) => call_selector(g.w, v.name, v.parameters, true),
            None => Seq::empty(),
        }
    } else {
        Seq::empty()
    }
}

pub open spec fn error_types_spec(g: EnvV, name: Seq<char>) -> Option<Seq<TypeV>> {
    if g.w.errors.contains_key(name) {
        Some(param_types(g.w.errors[name].parameters))
    } else {
        None
    }
}

pub open spec fn error_selector_spec(g: EnvV, name: Seq<char>) -> Seq<char> {
    if g.w.errors.contains_key(name) {
        call_selector(g.w, g.w.errors[name].name, g.w.errors[name].parameters, true)
    } else {
        Seq::empty()
    }
}

pub open spec fn variant_count_spec(g: EnvV, t: TypeV) -> usize {
    match t {
        TypeV::Primitive(n) => if g.w.enums.contains_key(n) {
            g.w.enums[n].variants.len() as usize
        } else {
            0
        },
        _ => 0,
    }
}

/// The types of a list of parameters.
pub fn types_of(ps: &Vec<Parameter>) -> (r: Vec<Type>)
    ensures
        crate::ast::types_v(r@) == param_types(params_v(ps@)),
{
    let mut out: Vec<Type> = Vec::new();
    let mut i: usize = 0;
    while i < ps.len()
        invariant
            i <= ps@.len(),
            out@.len() == i,
            forall|k: int| 0 <= k < i ==> (#[trigger] out@[k])@ == ps@[k].type_def@,
        decreases ps@.len() - i,
    {
        let t = ps[i].type_def.clone();
        out.push(t);
        i += 1;
    }
    assert(crate::ast::types_v(out@) =~= param_types(params_v(ps@)));
    out
}

impl<'a> Translator<'a> {
    pub fn class_of(&self, name: &str) -> (r: Option<&'a ClassDecl>)
        ensures
            class_of_spec(self.env(), name@) == (match r {
                Some(c) => Some(c@),
                None => None,
            }),
    {
        self.layout_engine.type_checker.loaded_classes.get(name)
    }

    pub fn method_of(&self, class: &str, method: &str) -> (r: Option<&'a FnDecl>)
        ensures
            method_of_spec(self.env(), class@, method@) == (match r {
                Some(f) => Some(f@),
                None => None,
            }),
    {
        match self.class_of(class) {
            Some(c) => match find_method(&c.methods, method) {
                Some(i) => Some(&c.methods[i]),
                None => None,
            },
            None => None,
        }
    }

    pub fn field_type(&self, class: &str, field: &str) -> (r: Option<Type>)
        ensures
            opt_type_v(r) == field_type_spec(self.env(), class@, field@),
    {
        match self.class_of(class) {
            Some(c) => match find_field(&c.fields, field) {
                Some(i) => Some(c.fields[i].type_def.clone()),
                None => None,
            },
            None => None,
        }
    }

    pub fn fn_type(&self, name: &str) -> (r: Option<Type>)
        ensures
            opt_type_v(r) == fn_type_spec(self.env(), name@),
    {
        match self.layout_engine.type_checker.function_return_types.get(name) {
            Some(t) => Some(t.clone()),
            None => None,
        }
    }

    /// The code that cuts a value down to the width of its type.
    pub fn mask_for_type(&self, val_expr: &str, type_def: &Type) -> (r: String)
        ensures
            r@ == mask_spec(val_expr@, type_def@),
    {
        mask_for_type(val_expr, type_def)
    }

    pub fn variant_pos(&self, name: &str, variant: &str) -> (r: Option<usize>)
        ensures
            r == variant_pos_spec(self.env(), name@, variant@),
    {
        match self.layout_engine.type_checker.loaded_enums.get(name) {
            Some(e) => find_variant(&e.variants, variant),
            None => None,
        }
    }

    pub fn variant_types(&self, name: &str, variant: &str) -> (r: Option<Vec<Type>>)
        ensures
            variant_types_spec(self.env(), name@, variant@) == (match r {
                Some(ts) => Some(crate::ast::types_v(ts@)),
                None => None,
            }),
    {
        match self.layout_engine.type_checker.loaded_enums.get(name) {
            Some(e) => match find_variant(&e.variants, variant) {
                Some(i) => Some(types_of(&e.variants[i].parameters)),
                None => None,
            },
            None => None,
        }
    }

    pub fn variant_selector(&self, name: &str, variant: &str) -> (r: String)
        ensures
            r@ == variant_selector_spec(self.env(), name@, variant@),
    {
        let tc = self.layout_engine.type_checker;
        match tc.loaded_enums.get(name) {
            Some(e) => match find_variant(&e.variants, variant) {
                Some(i) => AbiGenerator::new(tc).calculate_error_selector(
                    e.variants[i].name.as_str(),
                    &e.variants[i].parameters,
                ),
                None => String::new(),
            },
            None => String::new(),
        }
    }

    pub fn error_types(&self, name: &str) -> (r: Option<Vec<Type>>)
        ensures
            error_types_spec(self.env(), name@) == (match r {
                Some(ts) => Some(crate::ast::types_v(ts@)),
                None => None,
            }),
    {
        match self.layout_engine.type_checker.loaded_errors.get(name) {
            Some(e) => Some(types_of(&e.parameters)),
            None => None,
        }
    }

    pub fn error_selector(&self, name: &str) -> (r: String)
        ensures
            r@ == error_selector_spec(self.env(), name@),
    {
        let tc = self.layout_engine.type_checker;
        match tc.loaded_errors.get(name) {
            Some(e) => AbiGenerator::new(tc).calculate_error_selector(
                e.name.as_str(),
                &e.parameters,
            ),
            None => String::new(),
        }
    }

    pub fn enum_variant_count(&self, t: &Type) -> (r: usize)
        ensures
            r == variant_count_spec(self.env(), t@),
    {
        match t {
            Type::Primitive(n) => match self.layout_engine.type_checker.loaded_enums.get(n.as_str()) {
                Some(e) => e.variants.len(),
                None => 0,
            },
            _ => 0,
        }
    }
}

} // verus!
