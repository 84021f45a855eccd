//! Const fields: which ones the compiler can work out, and which ones are
//! written into the bytecode at deploy.
use crate::ast::{
    arms_v, body_v, clone_fields, fields_v, find_method, method_named, opt_type_v, ArmV, ClassDecl,
    ClassField, Expr, ExprV, FieldV, MatchArm, Spanned, SpannedV, Statement, StmtV, Type, TypeV,
};
use crate::codegen::layout::LayoutEngine;
use crate::codegen::yul::{literal_spec, literal_u128, numeric_meta, numeric_spec, opt_text};
use crate::semantic::flow::{targets, targets_field};
use crate::semantic::WorldV;
use crate::text::{cat3, dec, dec_u128, same, texts};
use vstd::arithmetic::power2::{lemma2_to64, pow2};
use vstd::prelude::*;

verus! {

broadcast use crate::ast::group_views;

/// How many times a statement assigns the field, at any depth.
pub open spec fn stmt_count(s: StmtV, class: Seq<char>, field: Seq<char>) -> nat
    decreases s, 0nat,
{
    match s {
        StmtV::Assignment { target, value } => if targets(target, class, field) {
            1
        } else {
            0
        },
        StmtV::IfElse { condition, if_body, else_body } => count_spec(if_body, class, field, if_body.len())
            + (match else_body {
            Some(b) => count_spec(b, class, field, b.len()),
            None => 0,
        }),
        StmtV::WhileLoop { condition, body } => count_spec(body, class, field, body.len()),
        StmtV::ForLoop { iterator, iterable, body } => count_spec(body, class, field, body.len()),
        StmtV::TryCatch { try_body, catch_body } => count_spec(try_body, class, field, try_body.len())
            + count_spec(catch_body, class, field, catch_body.len()),
        StmtV::ScopedTryCall { catch_body, .. } => count_spec(catch_body, class, field, catch_body.len()),
        StmtV::Match { expr, arms } => arms_count(arms, class, field, arms.len()),
        _ => 0,
    }
}

pub open spec fn arms_count(arms: Seq<ArmV>, class: Seq<char>, field: Seq<char>, n: nat) -> nat
    decreases arms, n,
{
    if n == 0 || n > arms.len() {
        0
    } else {
        arms_count(arms, class, field, (n - 1) as nat) + count_spec(
            arms[n - 1].body,
            class,
            field,
            arms[n - 1].body.len(),
        )
    }
}

/// How many times the first `n` statements of a body assign the field, at any
/// depth.
pub open spec fn count_spec(body: Seq<SpannedV>, class: Seq<char>, field: Seq<char>, n: nat) -> nat
    decreases body, n,
{
    if n == 0 || n > body.len() {
        0
    } else {
        count_spec(body, class, field, (n - 1) as nat) + stmt_count(
            body[n - 1].node,
            class,
            field,
        )
    }
}

/// A count as far as a machine word holds it.
pub open spec fn capped(n: nat) -> usize {
    if n > usize::MAX {
        usize::MAX
    } else {
        n as usize
    }
}

fn count_stmt(s: &Statement, class: &str, field: &str) -> (r: usize)
    ensures
        r == capped(stmt_count(s@, class@, field@)),
    decreases s,
{
    match s {
        Statement::Assignment { target, .. } => if targets_field(target, class, field) {
            1
        } else {
            0
        },
        Statement::IfElse { if_body, else_body, .. } => {
            let a = count_assignments(if_body, class, field);
            let b = match else_body {
                Some(b) => count_assignments(b, class, field),
                None => 0,
            };
            a.saturating_add(b)
        },
        Statement::WhileLoop { body, .. } => count_assignments(body, class, field),
        Statement::ForLoop { body, .. } => count_assignments(body, class, field),
        Statement::TryCatch { try_body, catch_body } => count_assignments(
            try_body,
            class,
            field,
        ).saturating_add(count_assignments(catch_body, class, field)),
        Statement::ScopedTryCall { catch_body, .. } => count_assignments(catch_body, class, field),
        Statement::Match { arms, .. } => count_arms(arms, class, field),
        _ => 0,
    }
}

fn count_arms(arms: &Vec<MatchArm>, class: &str, field: &str) -> (r: usize)
    ensures
        r == capped(arms_count(arms_v(arms@), class@, field@, arms@.len())),
    decreases arms,
{
    let mut total: usize = 0;
    let mut i: usize = 0;
    while i < arms.len()
        invariant
            i <= arms@.len(),
            total == capped(arms_count(arms_v(arms@), class@, field@, i as nat)),
        decreases arms@.len() - i,
    {
        let arm: &MatchArm = &arms[i];
        assert(decreases_to!(*arms => *arm));
        let c = count_assignments(&arm.body, class, field);
        assert(arms_v(arms@)[i as int] == arm@);
        total = total.saturating_add(c);
        i += 1;
    }
    total
}

/// How many times a body assigns the field, at any depth.
pub fn count_assignments(body: &Vec<Spanned<Statement>>, class: &str, field: &str) -> (r: usize)
    ensures
        r == capped(count_spec(body_v(body@), class@, field@, body@.len())),
    decreases body,
{
    let mut total: usize = 0;
    let mut i: usize = 0;
    while i < body.len()
        invariant
            i <= body@.len(),
            total == capped(count_spec(body_v(body@), class@, field@, i as nat)),
        decreases body@.len() - i,
    {
        let s: &Spanned<Statement> = &body[i];
        assert(decreases_to!(*body => *s));
        let c = count_stmt(&s.node, class, field);
        assert(body_v(body@)[i as int] == s@);
        total = total.saturating_add(c);
        i += 1;
    }
    total
}

/// What the first assignment of the field at the top level of a body, from
/// statement `i` on, assigns.
pub open spec fn top_value(body: Seq<SpannedV>, class: Seq<char>, field: Seq<char>, i: int) -> Option<
    ExprV,
>
    decreases body.len() - i,
{
    if i >= body.len() {
        None
    } else {
        match body[i].node {
            StmtV::Assignment { target, value } => if targets(target, class, field) {
                Some(value)
            } else {
                top_value(body, class, field, i + 1)
            },
            _ => top_value(body, class, field, i + 1),
        }
    }
}

fn find_top_value<'b>(body: &'b Vec<Spanned<Statement>>, class: &str, field: &str) -> (r: Option<&'b Expr>)
    ensures
        match r {
            Some(e) => top_value(body_v(body@), class@, field@, 0) == Some(e@),
            None => top_value(body_v(body@), class@, field@, 0) is None,
        },
{
    let mut i: usize = 0;
    while i < body.len()
        invariant
            i <= body@.len(),
            top_value(body_v(body@), class@, field@, 0) == top_value(
                body_v(body@),
                class@,
                field@,
                i as int,
            ),
        decreases body@.len() - i,
    {
        let s: &Spanned<Statement> = &body[i];
        assert(body_v(body@)[i as int] == s@);
        match &s.node {
            Statement::Assignment { target, value } => {
                if targets_field(target, class, field) {
                    return Some(value);
                }
            },
            _ => {},
        }
        i += 1;
    }
    None
}

/// Where the first const field called `name` stands, from position `i` on.
pub open spec fn const_index(fs: Seq<FieldV>, name: Seq<char>, i: int) -> Option<int>
    decreases fs.len() - i,
{
    if i >= fs.len() {
        None
    } else if fs[i].is_const && fs[i].name == name {
        Some(i)
    } else {
        const_index(fs, name, i + 1)
    }
}

fn find_const(fs: &Vec<ClassField>, name: &str) -> (r: Option<usize>)
    ensures
        match r {
            Some(i) => i < fs@.len() && const_index(fields_v(fs@), name@, 0) == Some(i as int),
            None => const_index(fields_v(fs@), name@, 0) is None,
        },
{
    let mut i: usize = 0;
    while i < fs.len()
        invariant
            i <= fs@.len(),
            const_index(fields_v(fs@), name@, 0) == const_index(fields_v(fs@), name@, i as int),
        decreases fs@.len() - i,
    {
        if fs[i].is_const && same(fs[i].name.as_str(), name) {
            return Some(i);
        }
        i += 1;
    }
    None
}

/// The type of `class.field`, where it is a const field.
pub open spec fn immutable_spec(w: WorldV, class: Seq<char>, field: Seq<char>) -> Option<TypeV> {
    if w.classes.contains_key(class) {
        match const_index(w.classes[class].fields, field, 0) {
            Some(i) => Some(w.classes[class].fields[i].type_def),
            None => None,
        }
    } else {
        None
    }
}

/// Whether an unsigned integer of `bits` bits holds `n`.
pub open spec fn fits_bits(n: nat, bits: usize) -> bool {
    bits >= 128 || n < pow2(bits as nat)
}

/// Whether an unsigned integer type of one of the usual widths holds `n`.
pub fn fits(n: u128, bits: usize) -> (r: bool)
    requires
        bits == 8 || bits == 16 || bits == 32 || bits == 64 || bits >= 128,
    ensures
        r == fits_bits(n as nat, bits),
{
    proof {
        lemma2_to64();
    }
    if bits >= 128 {
        true
    } else if bits == 8 {
        n <= 0xff
    } else if bits == 16 {
        n <= 0xffff
    } else if bits == 32 {
        n <= 0xffff_ffff
    } else {
        n <= 0xffff_ffff_ffff_ffff
    }
}

/// The value of a const field, where the constructor gives it one that is
/// known now: by a single assignment, at the top level, of a number literal
/// that the field's unsigned type holds.
pub open spec fn const_value_spec(w: WorldV, class: Seq<char>, field: Seq<char>) -> Option<Seq<char>> {
    if !w.classes.contains_key(class) {
        None
    } else {
        let c = w.classes[class];
        match (const_index(c.fields, field, 0), method_named(c.methods, "new"@)) {
            (Some(i), Some(ctor)) => if count_spec(ctor.body, class, field, ctor.body.len()) != 1 {
                None
            } else {
                match top_value(ctor.body, class, field, 0) {
                    Some(value) => match (literal_spec(value), c.fields[i].type_def) {
                        (Some(n), TypeV::Primitive(t)) => match numeric_spec(t) {
                            Some(m) => if !m.1 && fits_bits(n, m.0) {
                                Some(dec(n))
                            } else {
                                None
                            },
                            None => None,
                        },
                        _ => None,
                    },
                    None => None,
                }
            },
            _ => None,
        }
    }
}

/// The names of those of the first `n` fields that are const and whose value
/// is known only at deploy.
pub open spec fn patched_spec(w: WorldV, class: Seq<char>, fs: Seq<FieldV>, n: nat) -> Seq<Seq<char>>
    decreases n,
{
    if n == 0 {
        Seq::empty()
    } else {
        let out = patched_spec(w, class, fs, (n - 1) as nat);
        let f = fs[n - 1];
        if f.is_const && const_value_spec(w, class, f.name) is None {
            out.push(f.name)
        } else {
            out
        }
    }
}

/// The const fields of a class whose value is known only at deploy.
pub open spec fn patched_of(w: WorldV, class: Seq<char>) -> Seq<Seq<char>> {
    if w.classes.contains_key(class) {
        patched_spec(w, class, w.classes[class].fields, w.classes[class].fields.len())
    } else {
        Seq::empty()
    }
}

/// The const fields among the first `n`.
pub open spec fn const_fields(fs: Seq<FieldV>, n: nat) -> Seq<FieldV>
    decreases n,
{
    if n == 0 {
        Seq::empty()
    } else if fs[n - 1].is_const {
        const_fields(fs, (n - 1) as nat).push(fs[n - 1])
    } else {
        const_fields(fs, (n - 1) as nat)
    }
}

impl<'a> LayoutEngine<'a> {
    /// The type of `class.property`, where it is a const field. Such a field
    /// owns no slot, so this is asked before `storage_field`.
    pub fn immutable_field(&self, class: &str, property: &str) -> (r: Option<Type>)
        ensures
            opt_type_v(r) == immutable_spec(self.world(), class@, property@),
    {
        match self.type_checker.loaded_classes.get(class) {
            Some(c) => match find_const(&c.fields, property) {
                Some(i) => {
                    assert(c@.fields[i as int] == c.fields@[i as int]@);
                    Some(c.fields[i].type_def.clone())
                },
                None => None,
            },
            None => None,
        }
    }

    /// Every const field of a class, in the order of declaration.
    pub fn immutable_fields(&self, class: &str) -> (r: Vec<ClassField>)
        ensures
            fields_v(r@) == (if self.world().classes.contains_key(class@) {
                const_fields(
                    self.world().classes[class@].fields,
                    self.world().classes[class@].fields.len(),
                )
            } else {
                Seq::empty()
            }),
    {
        let mut out: Vec<ClassField> = Vec::new();
        match self.type_checker.loaded_classes.get(class) {
            Some(c) => {
                let ghost fs = c@.fields;
                let mut i: usize = 0;
                assert(fields_v(out@) =~= const_fields(fs, 0));
                while i < c.fields.len()
                    invariant
                        i <= c.fields@.len(),
                        fs == c@.fields,
                        fields_v(out@) == const_fields(fs, i as nat),
                    decreases c.fields@.len() - i,
                {
                    assert(fs[i as int] == c.fields@[i as int]@);
                    if c.fields[i].is_const {
                        let ghost before = fields_v(out@);
                        let f = c.fields[i].clone();
                        out.push(f);
                        assert(fields_v(out@) =~= before.push(fs[i as int]));
                    }
                    i += 1;
                }
            },
            None => {
                assert(fields_v(out@) =~= Seq::<FieldV>::empty());
            },
        }
        out
    }

    /// The const fields that still need a value at deploy.
    pub fn patched_immutables(&self, class: &str) -> (r: Vec<String>)
        ensures
            texts(r@) == patched_of(self.world(), class@),
    {
        let ghost w = self.world();
        let mut out: Vec<String> = Vec::new();
        match self.type_checker.loaded_classes.get(class) {
            Some(c) => {
                let ghost fs = c@.fields;
                assert(w.classes[class@] == c@);
                let mut i: usize = 0;
                assert(texts(out@) =~= patched_spec(w, class@, fs, 0));
                while i < c.fields.len()
                    invariant
                        i <= c.fields@.len(),
                        w == self.world(),
                        fs == c@.fields,
                        texts(out@) == patched_spec(w, class@, fs, i as nat),
                    decreases c.fields@.len() - i,
                {
                    let f = &c.fields[i];
                    assert(fs[i as int] == f@);
                    if f.is_const && self.const_field_value(class, f.name.as_str()).is_none() {
                        let ghost before = texts(out@);
                        out.push(f.name.clone());
                        assert(texts(out@) =~= before.push(f.name@));
                    }
                    i += 1;
                }
            },
            None => {
                assert(texts(out@) =~= Seq::<Seq<char>>::empty());
            },
        }
        out
    }

    /// The value of a const field that the compiler can work out.
    pub fn const_field_value(&self, class: &str, field: &str) -> (r: Option<String>)
        ensures
            opt_text(r) == const_value_spec(self.world(), class@, field@),
    {
        let c = match self.type_checker.loaded_classes.get(class) {
            Some(c) => c,
            None => {
                return None;
            },
        };
        assert(self.world().classes[class@] == c@);
        let at = match find_const(&c.fields, field) {
            Some(i) => i,
            None => {
                return None;
            },
        };
        let ctor = match find_method(&c.methods, "new") {
            Some(i) => &c.methods[i],
            None => {
                return None;
            },
        };
        if count_assignments(&ctor.body, class, field) != 1 {
            return None;
        }
        let value = match find_top_value(&ctor.body, class, field) {
            Some(v) => v,
            None => {
                return None;
            },
        };
        let n = match literal_u128(value) {
            Some(n) => n,
            None => {
                return None;
            },
        };
        assert(c@.fields[at as int] == c.fields@[at as int]@);
        match &c.fields[at].type_def {
            Type::Primitive(t) => match numeric_meta(t.as_str()) {
                Some(m) => if !m.1 && fits(n, m.0) {
                    Some(dec_u128(n))
                } else {
                    None
                },
                None => None,
            },
            _ => None,
        }
    }
}

/// The key under which the bytecode carries a const field: by class, so that
/// two contracts in one file cannot collide.
pub fn immutable_key(class: &str, field: &str) -> (r: String)
    ensures
        r@ == class@ + "_"@ + field@,
{
    cat3(class, "_", field)
}

} // verus!
