//! Which helper functions carry a type across the ABI, and asking for them.
use crate::ast::{fields_v, ClassField, FieldV, Type, TypeV};
use crate::codegen::abi::depth;
use crate::codegen::codec_src::{
    abi_st_cd_helper_src, abi_st_cd_helper_src_spec, abi_st_mem_helper_src,
    abi_st_mem_helper_src_spec, abi_st_put_helper_src, abi_st_put_helper_src_spec,
    build_dyn_struct_cd, build_dyn_struct_mem, build_dyn_struct_put, build_dyn_struct_size,
    dyn_fields_v, dyn_struct_cd_src, dyn_struct_mem_src, dyn_struct_put_src, dyn_struct_size_src,
    opt_texts, AbiDynField, AbiStructField, DynFieldV,
};
use crate::codegen::helpers::{
    abi_dynarr_cd_helper_src, abi_dynarr_cd_src, abi_dynarr_mem_helper_src, abi_dynarr_mem_src,
    abi_dynarr_put_helper_src, abi_dynarr_put_src, abi_dynarr_size_helper_src,
    abi_dynarr_size_src, abi_dynfarr_cd_helper_src, abi_dynfarr_cd_src,
    abi_dynfarr_mem_helper_src, abi_dynfarr_mem_src, abi_dynfarr_put_helper_src,
    abi_dynfarr_put_src, abi_dynfarr_size_helper_src, abi_dynfarr_size_src,
    abi_starr_cd_helper_src, abi_starr_cd_src, abi_starr_mem_helper_src, abi_starr_mem_src,
    abi_starr_put_helper_src, abi_starr_put_src, abi_starr_size_helper_src, abi_starr_size_src,
    abi_statarr_put_helper_src, abi_statarr_put_src, abi_statfarr_cd_helper_src,
    abi_statfarr_cd_src, abi_statfarr_mem_helper_src, abi_statfarr_mem_src,
    abi_statfarr_put_helper_src, abi_statfarr_put_src, bytes_copy_helper_src, bytes_copy_src,
    gum_abi_arr_cd_helper_src, gum_abi_arr_cd_src, gum_abi_arr_mem_helper_src,
    gum_abi_arr_mem_src, gum_abi_arr_put_helper_src, gum_abi_arr_put_src,
    gum_abi_arr_size_helper_src, gum_abi_arr_size_src, gum_abi_farr_cd_helper_src,
    gum_abi_farr_cd_src, gum_abi_farr_mem_helper_src, gum_abi_farr_mem_src,
    gum_abi_farr_put_helper_src, gum_abi_farr_put_src, gum_abi_str_cd_helper_src,
    gum_abi_str_cd_src, gum_abi_str_mem_helper_src, gum_abi_str_mem_src,
    gum_abi_str_put_helper_src, gum_abi_str_put_src, gum_abi_str_size_helper_src,
    gum_abi_str_size_src,
};
use crate::codegen::layout::{mem_field_in, size_spec};
use crate::codegen::translator::{
    class_of_spec, ensure_spec, variant_count_spec, EnvV, StV, Translator,
};
use crate::codegen::yul::{
    abi_mangle, abi_scalar, address_type, is_abi_scalar, is_address_type, is_str_type,
    is_struct_type, mangle_spec, opt_text, str_type, struct_type,
};
use crate::semantic::{class_count, scalar_enum, WorldV};
use crate::text::{cat2, cat3, cat5, cat6, cat7, cat9, dec, dec_mul, dec_text, same};
use vstd::prelude::*;

verus! {

broadcast use crate::ast::group_views;

/// Whether the encoding of a type has a tail, with classes opened `d` levels
/// deep.
pub open spec fn dyn_within(w: WorldV, t: TypeV, d: nat) -> bool
    decreases d, 0nat, t,
{
    match t {
        TypeV::Array(_) => true,
        TypeV::FixedArray(inner, _) => dyn_within(w, *inner, d),
        TypeV::Primitive(n) => n == "String"@ || n == "Bytes"@ || (struct_type(w, t) && d > 0
            && dyn_fields_within(w, w.classes[n].fields, w.classes[n].fields.len(), (d - 1) as nat)),
        TypeV::Generic { .. } => false,
    }
}

pub open spec fn dyn_fields_within(w: WorldV, fs: Seq<FieldV>, n: nat, d: nat) -> bool
    decreases d, n + 1, fs,
{
    n > 0 && (dyn_fields_within(w, fs, (n - 1) as nat, d) || dyn_within(w, fs[n - 1].type_def, d))
}

/// Whether the encoding of a type has a tail.
pub open spec fn abi_dynamic(w: WorldV, t: TypeV) -> bool {
    dyn_within(w, t, depth(w))
}

impl<'a> Translator<'a> {
    fn is_dynamic_within(&self, t: &Type, d: usize) -> (r: bool)
        ensures
            r == dyn_within(self.env().w, t@, d as nat),
        decreases d, 0nat, t,
    {
        match t {
            Type::Array(_) => true,
            Type::FixedArray(inner, _) => self.is_dynamic_within(inner, d),
            Type::Primitive(n) => {
                if same(n.as_str(), "String") || same(n.as_str(), "Bytes") {
                    return true;
                }
                if is_struct_type(self.layout_engine.type_checker, t) && d > 0 {
                    match self.class_of(n.as_str()) {
                        Some(c) => {
                            return self.has_dynamic_field(&c.fields, d - 1);
                        },
                        None => {},
                    }
                }
                false
            },
            Type::Generic { .. } => false,
        }
    }

    fn has_dynamic_field(&self, fs: &Vec<ClassField>, d: usize) -> (r: bool)
        ensures
            r == dyn_fields_within(self.env().w, fields_v(fs@), fs@.len(), d as nat),
        decreases d, 1nat, fs,
    {
        let mut b = false;
        let mut i: usize = 0;
        while i < fs.len()
            invariant
                i <= fs@.len(),
                b == dyn_fields_within(self.env().w, fields_v(fs@), i as nat, d as nat),
            decreases fs@.len() - i,
        {
            assert(fields_v(fs@)[i as int] == fs@[i as int]@);
            b = b || self.is_dynamic_within(&fs[i].type_def, d);
            i += 1;
        }
        b
    }

    /// Whether the encoding of a type has a tail.
    pub fn abi_is_dynamic(&self, t: &Type) -> (r: bool)
        ensures
            r == abi_dynamic(self.env().w, t@),
    {
        self.is_dynamic_within(t, class_count(self.layout_engine.type_checker))
    }
}

/// The fields of a class of scalars, as far as the first `n`; `None` where one
/// is not a scalar.
pub open spec fn struct_fields(g: EnvV, name: Seq<char>, fs: Seq<FieldV>, n: nat) -> Option<
    Seq<AbiStructField>,
>
    decreases n,
{
    if n == 0 {
        Some(Seq::empty())
    } else {
        match struct_fields(g, name, fs, (n - 1) as nat) {
            Some(out) => {
                let t = fs[n - 1].type_def;
                match mem_field_in(g.lay.mem, name, fs[n - 1].name) {
                    Some(mf) => if abi_scalar(t) || scalar_enum(g.w, t) {
                        Some(
                            out.push(
                                AbiStructField {
                                    mem_offset: mf.offset,
                                    width: mf.size,
                                    is_addr: address_type(t),
                                    enum_variants: if scalar_enum(g.w, t) {
                                        Some(variant_count_spec(g, t))
                                    } else {
                                        None
                                    },
                                },
                            ),
                        )
                    } else {
                        None
                    },
                    None => None,
                }
            },
            None => None,
        }
    }
}

/// The fields of a class that crosses the ABI as a static tuple.
pub open spec fn struct_layout(g: EnvV, name: Seq<char>) -> Option<Seq<AbiStructField>> {
    match class_of_spec(g, name) {
        Some(c) => if c.fields.len() == 0 {
            None
        } else {
            struct_fields(g, name, c.fields, c.fields.len())
        },
        None => None,
    }
}

proof fn lemma_struct_fields_none(g: EnvV, name: Seq<char>, fs: Seq<FieldV>, n: nat, m: nat)
    requires
        n <= m,
        struct_fields(g, name, fs, n) is None,
    ensures
        struct_fields(g, name, fs, m) is None,
    decreases m,
{
    if n < m {
        lemma_struct_fields_none(g, name, fs, n, (m - 1) as nat);
    }
}

impl<'a> Translator<'a> {
    pub fn abi_struct_layout(&self, name: &str) -> (r: Option<Vec<AbiStructField>>)
        ensures
            struct_layout(self.env(), name@) == (match r {
                Some(v) => Some(v@),
                None => None,
            }),
    {
        let class = match self.class_of(name) {
            Some(c) => c,
            None => {
                return None;
            },
        };
        let ghost g = self.env();
        let ghost fs = fields_v(class.fields@);
        let tc = self.layout_engine.type_checker;
        let mut out: Vec<AbiStructField> = Vec::new();
        let mut i: usize = 0;
        while i < class.fields.len()
            invariant
                i <= class.fields@.len(),
                g == self.env(),
                tc == self.layout_engine.type_checker,
                fs == fields_v(class.fields@),
                out@.len() == i,
                class_of_spec(g, name@) == Some(class@),
                struct_fields(g, name@, fs, i as nat) == Some(out@),
            decreases class.fields@.len() - i,
        {
            let f = &class.fields[i];
            assert(fs[i as int] == f@);
            let is_enum = tc.is_scalar_enum(&f.type_def);
            let field = self.layout_engine.memory_field(name, f.name.as_str());
            if !is_abi_scalar(&f.type_def) && !is_enum {
                proof {
                    lemma_struct_fields_none(g, name@, fs, (i + 1) as nat, fs.len());
                }
                return None;
            }
            match field {
                Some(mf) => {
                    let variants = if is_enum {
                        Some(self.enum_variant_count(&f.type_def))
                    } else {
                        None
                    };
                    out.push(
                        AbiStructField {
                            mem_offset: mf.offset,
                            width: mf.size,
                            is_addr: is_address_type(&f.type_def),
                            enum_variants: variants,
                        },
                    );
                },
                None => {
                    proof {
                        lemma_struct_fields_none(g, name@, fs, (i + 1) as nat, fs.len());
                    }
                    return None;
                },
            }
            i += 1;
        }
        if out.len() == 0 {
            return None;
        }
        Some(out)
    }
}

/// The fields of a class with a field of dynamic size, as far as the first `n`;
/// `None` where one can be neither. The flag says whether one is dynamic.
pub open spec fn dyn_struct_fields(g: EnvV, name: Seq<char>, fs: Seq<FieldV>, n: nat) -> Option<
    (Seq<DynFieldV>, bool),
>
    decreases n,
{
    if n == 0 {
        Some((Seq::empty(), false))
    } else {
        match dyn_struct_fields(g, name, fs, (n - 1) as nat) {
            Some((out, any)) => {
                let t = fs[n - 1].type_def;
                let dynamic = abi_dynamic(g.w, t);
                let fits = if dynamic {
                    str_type(t) || t is Array || t is FixedArray
                } else {
                    abi_scalar(t) || scalar_enum(g.w, t)
                };
                match mem_field_in(g.lay.mem, name, fs[n - 1].name) {
                    Some(mf) => if fits {
                        Some(
                            (
                                out.push(
                                    DynFieldV {
                                        ty: t,
                                        mem_offset: mf.offset,
                                        width: mf.size,
                                        is_addr: address_type(t),
                                        is_dynamic: dynamic,
                                        enum_variants: if scalar_enum(g.w, t) {
                                            Some(variant_count_spec(g, t))
                                        } else {
                                            None
                                        },
                                    },
                                ),
                                any || dynamic,
                            ),
                        )
                    } else {
                        None
                    },
                    None => None,
                }
            },
            None => None,
        }
    }
}

/// The fields of a class that crosses the ABI as a dynamic tuple.
pub open spec fn dyn_struct_layout(g: EnvV, name: Seq<char>) -> Option<Seq<DynFieldV>> {
    match class_of_spec(g, name) {
        Some(c) => match dyn_struct_fields(g, name, c.fields, c.fields.len()) {
            Some((out, any)) => if any {
                Some(out)
            } else {
                None
            },
            None => None,
        },
        None => None,
    }
}

proof fn lemma_dyn_struct_none(g: EnvV, name: Seq<char>, fs: Seq<FieldV>, n: nat, m: nat)
    requires
        n <= m,
        dyn_struct_fields(g, name, fs, n) is None,
    ensures
        dyn_struct_fields(g, name, fs, m) is None,
    decreases m,
{
    if n < m {
        lemma_dyn_struct_none(g, name, fs, n, (m - 1) as nat);
    }
}

impl<'a> Translator<'a> {
    pub fn abi_dyn_struct_layout(&self, name: &str) -> (r: Option<Vec<AbiDynField>>)
        ensures
            dyn_struct_layout(self.env(), name@) == (match r {
                Some(v) => Some(dyn_fields_v(v@)),
                None => None,
            }),
    {
        let class = match self.class_of(name) {
            Some(c) => c,
            None => {
                return None;
            },
        };
        let ghost g = self.env();
        let ghost fs = fields_v(class.fields@);
        let tc = self.layout_engine.type_checker;
        let mut out: Vec<AbiDynField> = Vec::new();
        let mut any = false;
        let mut i: usize = 0;
        assert(dyn_fields_v(out@) =~= Seq::<DynFieldV>::empty());
        while i < class.fields.len()
            invariant
                i <= class.fields@.len(),
                g == self.env(),
                tc == self.layout_engine.type_checker,
                fs == fields_v(class.fields@),
                class_of_spec(g, name@) == Some(class@),
                dyn_struct_fields(g, name@, fs, i as nat) == Some((dyn_fields_v(out@), any)),
            decreases class.fields@.len() - i,
        {
            let f = &class.fields[i];
            assert(fs[i as int] == f@);
            let is_enum = tc.is_scalar_enum(&f.type_def);
            let is_dynamic = self.abi_is_dynamic(&f.type_def);
            let fits = if is_dynamic {
                is_str_type(&f.type_def) || matches!(
                    &f.type_def,
                    Type::Array(_) | Type::FixedArray(..)
                )
            } else {
                is_abi_scalar(&f.type_def) || is_enum
            };
            let field = self.layout_engine.memory_field(name, f.name.as_str());
            if !fits {
                proof {
                    lemma_dyn_struct_none(g, name@, fs, (i + 1) as nat, fs.len());
                }
                return None;
            }
            match field {
                Some(mf) => {
                    let variants = if is_enum {
                        Some(self.enum_variant_count(&f.type_def))
                    } else {
                        None
                    };
                    let ghost before = dyn_fields_v(out@);
                    let x = AbiDynField {
                        ty: f.type_def.clone(),
                        mem_offset: mf.offset,
                        width: mf.size,
                        is_addr: is_address_type(&f.type_def),
                        is_dynamic,
                        enum_variants: variants,
                    };
                    let ghost xv = x@;
                    out.push(x);
                    assert(dyn_fields_v(out@) =~= before.push(xv));
                    any = any || is_dynamic;
                },
                None => {
                    proof {
                        lemma_dyn_struct_none(g, name@, fs, (i + 1) as nat, fs.len());
                    }
                    return None;
                },
            }
            i += 1;
        }
        if !any {
            return None;
        }
        Some(out)
    }
}

#[verifier::opaque]
pub open spec fn ensure_abi_arr_cd_spec(g: EnvV, st: StV) -> StV {
    let st = ensure_spec(st, "gum_abi_arr_cd"@, gum_abi_arr_cd_src());
    st
}

impl<'a> Translator<'a> {
    pub fn ensure_abi_arr_cd(&mut self)
        ensures
            final(self).env() == old(self).env(),
            ensure_abi_arr_cd_spec(old(self).env(), old(self).st()) == final(self).st(),
    {
        proof {
            reveal(ensure_abi_arr_cd_spec);
        }
        self.ensure_helper("gum_abi_arr_cd", gum_abi_arr_cd_helper_src());
    }
}

#[verifier::opaque]
pub open spec fn ensure_abi_arr_mem_spec(g: EnvV, st: StV) -> StV {
    let st = ensure_spec(st, "gum_abi_arr_mem"@, gum_abi_arr_mem_src());
    st
}

impl<'a> Translator<'a> {
    pub fn ensure_abi_arr_mem(&mut self)
        ensures
            final(self).env() == old(self).env(),
            ensure_abi_arr_mem_spec(old(self).env(), old(self).st()) == final(self).st(),
    {
        proof {
            reveal(ensure_abi_arr_mem_spec);
        }
        self.ensure_helper("gum_abi_arr_mem", gum_abi_arr_mem_helper_src());
    }
}

#[verifier::opaque]
pub open spec fn ensure_abi_arr_put_spec(g: EnvV, st: StV) -> StV {
    let st = ensure_spec(st, "gum_abi_arr_put"@, gum_abi_arr_put_src());
    let st = ensure_spec(st, "gum_abi_arr_size"@, gum_abi_arr_size_src());
    st
}

impl<'a> Translator<'a> {
    pub fn ensure_abi_arr_put(&mut self)
        ensures
            final(self).env() == old(self).env(),
            ensure_abi_arr_put_spec(old(self).env(), old(self).st()) == final(self).st(),
    {
        proof {
            reveal(ensure_abi_arr_put_spec);
        }
        self.ensure_helper("gum_abi_arr_put", gum_abi_arr_put_helper_src());
        self.ensure_helper("gum_abi_arr_size", gum_abi_arr_size_helper_src());
    }
}

#[verifier::opaque]
pub open spec fn ensure_abi_farr_cd_spec(g: EnvV, st: StV) -> StV {
    let st = ensure_spec(st, "gum_abi_farr_cd"@, gum_abi_farr_cd_src());
    st
}

impl<'a> Translator<'a> {
    pub fn ensure_abi_farr_cd(&mut self)
        ensures
            final(self).env() == old(self).env(),
            ensure_abi_farr_cd_spec(old(self).env(), old(self).st()) == final(self).st(),
    {
        proof {
            reveal(ensure_abi_farr_cd_spec);
        }
        self.ensure_helper("gum_abi_farr_cd", gum_abi_farr_cd_helper_src());
    }
}

#[verifier::opaque]
pub open spec fn ensure_abi_farr_mem_spec(g: EnvV, st: StV) -> StV {
    let st = ensure_spec(st, "gum_abi_farr_mem"@, gum_abi_farr_mem_src());
    st
}

impl<'a> Translator<'a> {
    pub fn ensure_abi_farr_mem(&mut self)
        ensures
            final(self).env() == old(self).env(),
            ensure_abi_farr_mem_spec(old(self).env(), old(self).st()) == final(self).st(),
    {
        proof {
            reveal(ensure_abi_farr_mem_spec);
        }
        self.ensure_helper("gum_abi_farr_mem", gum_abi_farr_mem_helper_src());
    }
}

#[verifier::opaque]
pub open spec fn ensure_abi_farr_put_spec(g: EnvV, st: StV) -> StV {
    let st = ensure_spec(st, "gum_abi_farr_put"@, gum_abi_farr_put_src());
    st
}

impl<'a> Translator<'a> {
    pub fn ensure_abi_farr_put(&mut self)
        ensures
            final(self).env() == old(self).env(),
            ensure_abi_farr_put_spec(old(self).env(), old(self).st()) == final(self).st(),
    {
        proof {
            reveal(ensure_abi_farr_put_spec);
        }
        self.ensure_helper("gum_abi_farr_put", gum_abi_farr_put_helper_src());
    }
}

#[verifier::opaque]
pub open spec fn require_bytes_copy_spec(g: EnvV, st: StV) -> StV {
    let st = ensure_spec(st, "bytes_copy"@, bytes_copy_src());
    st
}

impl<'a> Translator<'a> {
    pub fn require_bytes_copy(&mut self)
        ensures
            final(self).env() == old(self).env(),
            require_bytes_copy_spec(old(self).env(), old(self).st()) == final(self).st(),
    {
        proof {
            reveal(require_bytes_copy_spec);
        }
        self.ensure_helper("bytes_copy", bytes_copy_helper_src());
    }
}

/// The size of a static tuple on the wire.
pub open spec fn abi_struct_wire_size_spec(g: EnvV, name: Seq<char>) -> Option<usize> {
    match struct_layout(g, name) {
        Some(f) => Some((f.len() as usize).wrapping_mul(32usize)),
        None => None,
    }
}

impl<'a> Translator<'a> {
    pub fn abi_struct_wire_size(&self, name: &str) -> (r: Option<usize>)
        ensures
            r == abi_struct_wire_size_spec(self.env(), name@),
    {
        match self.abi_struct_layout(name) {
            Some(f) => Some(f.len().wrapping_mul(32)),
            None => None,
        }
    }
}

/// The size of a class in memory.
pub open spec fn abi_struct_packed_spec(g: EnvV, name: Seq<char>) -> usize {
    size_spec(g.w, g.lay.sizes, TypeV::Primitive(name))
}

impl<'a> Translator<'a> {
    pub(crate) fn abi_struct_packed(&self, name: &str) -> (r: usize)
        ensures
            r == abi_struct_packed_spec(self.env(), name@),
    {
        self.layout_engine.size_of(&Type::Primitive(String::from_str(name)))
    }
}

/// The calldata decoder of a static tuple, and its size on the wire.
#[verifier::opaque]
pub open spec fn ensure_abi_struct_cd_spec(
    g: EnvV,
    st: StV,
    name: Seq<char>,
) -> (StV, Option<(Seq<char>, usize)>) {
    match struct_layout(g, name) {
        Some(fields) => {
            let packed = abi_struct_packed_spec(g, name);
            let fname = "gum_abi_st_"@ + name + "_cd"@;
            let st = ensure_spec(st, fname, abi_st_cd_helper_src_spec(fname, fields, packed));
            (st, Some((fname, (fields.len() as usize).wrapping_mul(32usize))))
        },
        None => (st, None),
    }
}

impl<'a> Translator<'a> {
    pub fn ensure_abi_struct_cd(&mut self, name: &str) -> (r: Option<(String, usize)>)
        ensures
            final(self).env() == old(self).env(),
            ensure_abi_struct_cd_spec(old(self).env(), old(self).st(), name@) == (
                final(self).st(),
                (match r { Some(x) => Some((x.0@, x.1)), None => None }),
            ),
    {
        proof {
            reveal(ensure_abi_struct_cd_spec);
        }
        match self.abi_struct_layout(name) {
            Some(fields) => {
                let packed: usize = self.abi_struct_packed(name);
                let fname = cat3("gum_abi_st_", name, "_cd");
                self.ensure_helper(
                    fname.as_str(),
                    abi_st_cd_helper_src(fname.as_str(), &fields, packed),
                );
                Some((fname, fields.len().wrapping_mul(32)))
            },
            None => None,
        }
    }
}

/// The memory decoder of a static tuple, and its size on the wire.
#[verifier::opaque]
pub open spec fn ensure_abi_struct_mem_spec(
    g: EnvV,
    st: StV,
    name: Seq<char>,
) -> (StV, Option<(Seq<char>, usize)>) {
    match struct_layout(g, name) {
        Some(fields) => {
            let packed = abi_struct_packed_spec(g, name);
            let fname = "gum_abi_st_"@ + name + "_mem"@;
            let st = ensure_spec(st, fname, abi_st_mem_helper_src_spec(fname, fields, packed));
            (st, Some((fname, (fields.len() as usize).wrapping_mul(32usize))))
        },
        None => (st, None),
    }
}

impl<'a> Translator<'a> {
    pub fn ensure_abi_struct_mem(&mut self, name: &str) -> (r: Option<(String, usize)>)
        ensures
            final(self).env() == old(self).env(),
            ensure_abi_struct_mem_spec(old(self).env(), old(self).st(), name@) == (
                final(self).st(),
                (match r { Some(x) => Some((x.0@, x.1)), None => None }),
            ),
    {
        proof {
            reveal(ensure_abi_struct_mem_spec);
        }
        match self.abi_struct_layout(name) {
            Some(fields) => {
                let packed: usize = self.abi_struct_packed(name);
                let fname = cat3("gum_abi_st_", name, "_mem");
                self.ensure_helper(
                    fname.as_str(),
                    abi_st_mem_helper_src(fname.as_str(), &fields, packed),
                );
                Some((fname, fields.len().wrapping_mul(32)))
            },
            None => None,
        }
    }
}

/// The encoder of a static tuple, and its size on the wire.
#[verifier::opaque]
pub open spec fn ensure_abi_struct_put_spec(
    g: EnvV,
    st: StV,
    name: Seq<char>,
) -> (StV, Option<(Seq<char>, usize)>) {
    match struct_layout(g, name) {
        Some(fields) => {
            let fname = "gum_abi_st_"@ + name + "_put"@;
            let st = ensure_spec(st, fname, abi_st_put_helper_src_spec(fname, fields));
            (st, Some((fname, (fields.len() as usize).wrapping_mul(32usize))))
        },
        None => (st, None),
    }
}

impl<'a> Translator<'a> {
    pub fn ensure_abi_struct_put(&mut self, name: &str) -> (r: Option<(String, usize)>)
        ensures
            final(self).env() == old(self).env(),
            ensure_abi_struct_put_spec(old(self).env(), old(self).st(), name@) == (
                final(self).st(),
                (match r { Some(x) => Some((x.0@, x.1)), None => None }),
            ),
    {
        proof {
            reveal(ensure_abi_struct_put_spec);
        }
        match self.abi_struct_layout(name) {
            Some(fields) => {
                let fname = cat3("gum_abi_st_", name, "_put");
                self.ensure_helper(fname.as_str(), abi_st_put_helper_src(fname.as_str(), &fields));
                Some((fname, fields.len().wrapping_mul(32)))
            },
            None => None,
        }
    }
}

/// The calldata decoder of an array of static tuples.
#[verifier::opaque]
pub open spec fn ensure_abi_struct_arr_cd_spec(
    g: EnvV,
    st: StV,
    name: Seq<char>,
) -> (StV, Option<Seq<char>>) {
    let (st, found) = ensure_abi_struct_cd_spec(g, st, name);
    match found {
        Some((st_fn, wire)) => {
            let packed = abi_struct_packed_spec(g, name);
            let fname = "gum_abi_starr_"@ + name + "_cd"@;
            let st = ensure_spec(st, fname, abi_starr_cd_src(fname, st_fn, wire, packed));
            (st, Some(fname))
        },
        None => (st, None),
    }
}

impl<'a> Translator<'a> {
    pub fn ensure_abi_struct_arr_cd(&mut self, name: &str) -> (r: Option<String>)
        ensures
            final(self).env() == old(self).env(),
            ensure_abi_struct_arr_cd_spec(
                old(self).env(),
                old(self).st(),
                name@,
            ) == (final(self).st(), opt_text(r)),
    {
        proof {
            reveal(ensure_abi_struct_arr_cd_spec);
        }
        let found = self.ensure_abi_struct_cd(name);
        match found {
            Some((st_fn, wire)) => {
                let packed: usize = self.abi_struct_packed(name);
                let fname = cat3("gum_abi_starr_", name, "_cd");
                self.ensure_helper(
                    fname.as_str(),
                    abi_starr_cd_helper_src(fname.as_str(), st_fn.as_str(), wire, packed),
                );
                Some(fname)
            },
            None => None,
        }
    }
}

/// The memory decoder of an array of static tuples.
#[verifier::opaque]
pub open spec fn ensure_abi_struct_arr_mem_spec(
    g: EnvV,
    st: StV,
    name: Seq<char>,
) -> (StV, Option<Seq<char>>) {
    let (st, found) = ensure_abi_struct_mem_spec(g, st, name);
    match found {
        Some((st_fn, wire)) => {
            let packed = abi_struct_packed_spec(g, name);
            let fname = "gum_abi_starr_"@ + name + "_mem"@;
            let st = ensure_spec(st, fname, abi_starr_mem_src(fname, st_fn, wire, packed));
            (st, Some(fname))
        },
        None => (st, None),
    }
}

impl<'a> Translator<'a> {
    pub fn ensure_abi_struct_arr_mem(&mut self, name: &str) -> (r: Option<String>)
        ensures
            final(self).env() == old(self).env(),
            ensure_abi_struct_arr_mem_spec(
                old(self).env(),
                old(self).st(),
                name@,
            ) == (final(self).st(), opt_text(r)),
    {
        proof {
            reveal(ensure_abi_struct_arr_mem_spec);
        }
        let found = self.ensure_abi_struct_mem(name);
        match found {
            Some((st_fn, wire)) => {
                let packed: usize = self.abi_struct_packed(name);
                let fname = cat3("gum_abi_starr_", name, "_mem");
                self.ensure_helper(
                    fname.as_str(),
                    abi_starr_mem_helper_src(fname.as_str(), st_fn.as_str(), wire, packed),
                );
                Some(fname)
            },
            None => None,
        }
    }
}

/// The encoder of an array of static tuples, and its size function.
#[verifier::opaque]
pub open spec fn ensure_abi_struct_arr_put_spec(
    g: EnvV,
    st: StV,
    name: Seq<char>,
) -> (StV, Option<(Seq<char>, Seq<char>)>) {
    let (st, found) = ensure_abi_struct_put_spec(g, st, name);
    match found {
        Some((st_fn, wire)) => {
            let packed = abi_struct_packed_spec(g, name);
            let fname = "gum_abi_starr_"@ + name + "_put"@;
            let sname = "gum_abi_starr_"@ + name + "_size"@;
            let st = ensure_spec(st, fname, abi_starr_put_src(fname, st_fn, wire, packed));
            let st = ensure_spec(st, sname, abi_starr_size_src(sname, wire, packed));
            (st, Some((fname, sname)))
        },
        None => (st, None),
    }
}

impl<'a> Translator<'a> {
    pub fn ensure_abi_struct_arr_put(&mut self, name: &str) -> (r: Option<(String, String)>)
        ensures
            final(self).env() == old(self).env(),
            ensure_abi_struct_arr_put_spec(old(self).env(), old(self).st(), name@) == (
                final(self).st(),
                (match r { Some(x) => Some((x.0@, x.1@)), None => None }),
            ),
    {
        proof {
            reveal(ensure_abi_struct_arr_put_spec);
        }
        let found = self.ensure_abi_struct_put(name);
        match found {
            Some((st_fn, wire)) => {
                let packed: usize = self.abi_struct_packed(name);
                let fname = cat3("gum_abi_starr_", name, "_put");
                let sname = cat3("gum_abi_starr_", name, "_size");
                self.ensure_helper(
                    fname.as_str(),
                    abi_starr_put_helper_src(fname.as_str(), st_fn.as_str(), wire, packed),
                );
                self.ensure_helper(
                    sname.as_str(),
                    abi_starr_size_helper_src(sname.as_str(), wire, packed),
                );
                Some((fname, sname))
            },
            None => None,
        }
    }
}

/// The class that a type is, where it crosses the ABI as a static tuple.
pub open spec fn abi_static_struct_spec(g: EnvV, t: TypeV) -> Option<Seq<char>> {
    match t {
        TypeV::Primitive(n) => {
            if struct_type(g.w, t) && struct_layout(g, n) is Some {
                Some(n)
            } else {
                None
            }
        },
        _ => None,
    }
}

impl<'a> Translator<'a> {
    pub(crate) fn abi_static_struct(&self, t: &Type) -> (r: Option<String>)
        ensures
            opt_text(r) == abi_static_struct_spec(self.env(), t@),
    {
        match t {
            Type::Primitive(n) => {
                if is_struct_type(
                    self.layout_engine.type_checker,
                    t,
                ) && self.abi_struct_layout(n.as_str()).is_some() {
                    return Some(n.clone());
                }
                None
            },
            _ => None,
        }
    }
}

/// The class whose values an array holds, where they are static tuples.
pub open spec fn abi_struct_elem_spec(g: EnvV, t: TypeV) -> Option<Seq<char>> {
    match t {
        TypeV::Array(inner) => abi_static_struct_spec(g, *inner),
        _ => None,
    }
}

impl<'a> Translator<'a> {
    pub fn abi_struct_elem(&self, t: &Type) -> (r: Option<String>)
        ensures
            opt_text(r) == abi_struct_elem_spec(self.env(), t@),
    {
        match t {
            Type::Array(inner) => self.abi_static_struct(inner),
            _ => None,
        }
    }
}

/// The size of a type in the head of an encoding.
pub open spec fn abi_head_bytes_spec(g: EnvV, t: TypeV) -> usize
    decreases t,
{
    if abi_dynamic(g.w, t) {
        32usize
    } else {
        match t {
            TypeV::FixedArray(inner, n) => n.wrapping_mul(abi_head_bytes_spec(g, *inner)),
            TypeV::Primitive(name) => {
                if struct_type(g.w, t) {
                    match abi_struct_wire_size_spec(g, name) {
                        Some(size) => size,
                        None => 32usize,
                    }
                } else {
                    32usize
                }
            },
            _ => 32usize,
        }
    }
}

impl<'a> Translator<'a> {
    pub fn abi_head_bytes(&self, t: &Type) -> (r: usize)
        ensures
            r == abi_head_bytes_spec(self.env(), t@),
        decreases t,
    {
        if self.abi_is_dynamic(t) {
            return 32;
        }
        match t {
            Type::FixedArray(inner, n) => (*n).wrapping_mul(self.abi_head_bytes(inner)),
            Type::Primitive(name) => {
                if is_struct_type(self.layout_engine.type_checker, t) {
                    match self.abi_struct_wire_size(name.as_str()) {
                        Some(size) => {
                            return size;
                        },
                        None => {
                            return 32;
                        },
                    }
                }
                32
            },
            _ => 32,
        }
    }
}

pub open spec fn enum_arr_cd_src_spec(fname: Seq<char>, nvar: usize, esz: usize) -> Seq<char> {
    "function "@ + fname + "(off) -> ptr {\n    if lt(calldatasize(), add(off, 32)) { revert(0, 0) }\n    let n := calldataload(off)\n    if gt(n, div(sub(calldatasize(), add(off, 32)), 32)) { revert(0, 0) }\n    for { let i := 0 } lt(i, n) { i := add(i, 1) } {\n        if iszero(lt(calldataload(add(add(off, 32), mul(i, 32))), "@ + dec(
        nvar as nat
    ) + ")) { revert(0, 0) }\n    }\n    ptr := gum_abi_arr_cd(off, "@ + dec(esz as nat) + ")\n}\n"@
}

pub(crate) fn enum_arr_cd_src(fname: &str, nvar: usize, esz: usize) -> (r: String)
    ensures
        r@ == enum_arr_cd_src_spec(fname@, nvar, esz),
{
    cat7(
        "function ",
        fname,
        "(off) -> ptr {\n    if lt(calldatasize(), add(off, 32)) { revert(0, 0) }\n    let n := calldataload(off)\n    if gt(n, div(sub(calldatasize(), add(off, 32)), 32)) { revert(0, 0) }\n    for { let i := 0 } lt(i, n) { i := add(i, 1) } {\n        if iszero(lt(calldataload(add(add(off, 32), mul(i, 32))), ",
        dec_text(nvar).as_str(),
        ")) { revert(0, 0) }\n    }\n    ptr := gum_abi_arr_cd(off, ",
        dec_text(esz).as_str(),
        ")\n}\n",
    )
}

pub open spec fn enum_farr_cd_src_spec(
    fname: Seq<char>,
    n: usize,
    nvar: usize,
    esz: usize,
) -> Seq<char> {
    "function "@ + fname + "(off) -> ptr {\n    for { let i := 0 } lt(i, "@ + dec(n as nat) + ") { i := add(i, 1) } {\n        if iszero(lt(calldataload(add(off, mul(i, 32))), "@ + dec(
        nvar as nat
    ) + ")) { revert(0, 0) }\n    }\n    ptr := gum_abi_farr_cd(off, "@ + dec(n as nat) + ", "@ + dec(esz as nat) + ")\n}\n"@
}

pub(crate) fn enum_farr_cd_src(fname: &str, n: usize, nvar: usize, esz: usize) -> (r: String)
    ensures
        r@ == enum_farr_cd_src_spec(fname@, n, nvar, esz),
{
    cat3(
        cat9(
            "function ",
            fname,
            "(off) -> ptr {\n    for { let i := 0 } lt(i, ",
            dec_text(n).as_str(),
            ") { i := add(i, 1) } {\n        if iszero(lt(calldataload(add(off, mul(i, 32))), ",
            dec_text(nvar).as_str(),
            ")) { revert(0, 0) }\n    }\n    ptr := gum_abi_farr_cd(off, ",
            dec_text(n).as_str(),
            ", ",
        ).as_str(),
        dec_text(esz).as_str(),
        ")\n}\n",
    )
}

/// The source of the calldata decoder of an array.
#[verifier::opaque]
pub open spec fn array_cd_src_spec(
    g: EnvV,
    st: StV,
    t: TypeV,
    fname: Seq<char>,
) -> (StV, Option<Seq<char>>)
    decreases t, 0nat,
{
    match t {
        TypeV::Array(inner) => {
            if abi_dynamic(g.w, *inner) {
                let (st, found) = ensure_abi_cd_spec(g, st, *inner);
                match found {
                    Some(ic) => (st, Some(abi_dynarr_cd_src(fname, ic))),
                    None => (st, None),
                }
            } else if scalar_enum(g.w, *inner) {
                let st = ensure_abi_arr_cd_spec(g, st);
                (
                    st,
                    Some(
                        enum_arr_cd_src_spec(
                            fname,
                            variant_count_spec(g, *inner),
                            size_spec(g.w, g.lay.sizes, *inner),
                        )
                    ),
                )
            } else if abi_scalar(*inner) {
                let st = ensure_abi_arr_cd_spec(g, st);
                (
                    st,
                    Some(
                        "function "@
                        + fname
                        + "(off) -> ptr {\n    ptr := gum_abi_arr_cd(off, "@
                        + dec(size_spec(g.w, g.lay.sizes, *inner) as nat)
                        + ")\n}\n"@
                    ),
                )
            } else {
                let (st, found) = ensure_abi_cd_spec(g, st, *inner);
                match found {
                    Some(ic) => (
                        st,
                        Some(
                            abi_starr_cd_src(
                                fname,
                                ic,
                                abi_head_bytes_spec(g, *inner),
                                size_spec(g.w, g.lay.sizes, *inner),
                            )
                        ),
                    ),
                    None => (st, None),
                }
            }
        },
        TypeV::FixedArray(inner, n) => {
            if abi_dynamic(g.w, *inner) {
                let (st, found) = ensure_abi_cd_spec(g, st, *inner);
                match found {
                    Some(ic) => (st, Some(abi_dynfarr_cd_src(fname, ic, n))),
                    None => (st, None),
                }
            } else {
                match abi_static_struct_spec(g, *inner) {
                    Some(sn) => {
                        let (st, found) = ensure_abi_struct_cd_spec(g, st, sn);
                        match found {
                            Some((st_fn, wire)) => (
                                st,
                                Some(
                                    abi_statfarr_cd_src(
                                        fname,
                                        st_fn,
                                        n,
                                        wire,
                                        abi_struct_packed_spec(g, sn),
                                    )
                                ),
                            ),
                            None => (st, None),
                        }
                    },
                    None => {
                        if scalar_enum(g.w, *inner) {
                            let st = ensure_abi_farr_cd_spec(g, st);
                            (
                                st,
                                Some(
                                    enum_farr_cd_src_spec(
                                        fname,
                                        n,
                                        variant_count_spec(g, *inner),
                                        size_spec(g.w, g.lay.sizes, *inner),
                                    )
                                ),
                            )
                        } else if abi_scalar(*inner) {
                            let st = ensure_abi_farr_cd_spec(g, st);
                            (
                                st,
                                Some(
                                    "function "@
                                    + fname
                                    + "(off) -> ptr {\n    ptr := gum_abi_farr_cd(off, "@
                                    + dec(n as nat)
                                    + ", "@
                                    + dec(size_spec(g.w, g.lay.sizes, *inner) as nat)
                                    + ")\n}\n"@
                                ),
                            )
                        } else {
                            let (st, found) = ensure_abi_cd_spec(g, st, *inner);
                            match found {
                                Some(ic) => (
                                    st,
                                    Some(
                                        abi_statfarr_cd_src(
                                            fname,
                                            ic,
                                            n,
                                            abi_head_bytes_spec(g, *inner),
                                            size_spec(g.w, g.lay.sizes, *inner),
                                        )
                                    ),
                                ),
                                None => (st, None),
                            }
                        }
                    },
                }
            }
        },
        _ => (st, None),
    }
}

impl<'a> Translator<'a> {
    pub(crate) fn array_cd_src(&mut self, t: &Type, fname: &str) -> (r: Option<String>)
        ensures
            final(self).env() == old(self).env(),
            array_cd_src_spec(
                old(self).env(),
                old(self).st(),
                t@,
                fname@,
            ) == (final(self).st(), opt_text(r)),
        decreases t, 0nat,
    {
        proof {
            reveal(array_cd_src_spec);
            reveal(ensure_abi_cd_spec);
        }
        match t {
            Type::Array(inner) => {
                if self.abi_is_dynamic(inner) {
                    let found = self.ensure_abi_cd(inner);
                    match found {
                        Some(ic) => {
                            return Some(abi_dynarr_cd_helper_src(fname, ic.as_str()));
                        },
                        None => {
                            return None;
                        },
                    }
                }
                if self.layout_engine.type_checker.is_scalar_enum(inner) {
                    self.ensure_abi_arr_cd();
                    return Some(
                        enum_arr_cd_src(
                            fname,
                            self.enum_variant_count(inner),
                            self.layout_engine.size_of(inner),
                        )
                    );
                }
                if is_abi_scalar(inner) {
                    self.ensure_abi_arr_cd();
                    return Some(
                        cat5(
                            "function ",
                            fname,
                            "(off) -> ptr {\n    ptr := gum_abi_arr_cd(off, ",
                            dec_text(self.layout_engine.size_of(inner)).as_str(),
                            ")\n}\n",
                        )
                    );
                }
                let found = self.ensure_abi_cd(inner);
                match found {
                    Some(ic) => Some(
                        abi_starr_cd_helper_src(
                            fname,
                            ic.as_str(),
                            self.abi_head_bytes(inner),
                            self.layout_engine.size_of(inner),
                        )
                    ),
                    None => None,
                }
            },
            Type::FixedArray(inner, n) => {
                if self.abi_is_dynamic(inner) {
                    let found = self.ensure_abi_cd(inner);
                    match found {
                        Some(ic) => {
                            return Some(abi_dynfarr_cd_helper_src(fname, ic.as_str(), *n));
                        },
                        None => {
                            return None;
                        },
                    }
                }
                match self.abi_static_struct(inner) {
                    Some(sn) => {
                        let found = self.ensure_abi_struct_cd(sn.as_str());
                        match found {
                            Some((st_fn, wire)) => {
                                return Some(
                                    abi_statfarr_cd_helper_src(
                                        fname,
                                        st_fn.as_str(),
                                        *n,
                                        wire,
                                        self.abi_struct_packed(sn.as_str()),
                                    )
                                );
                            },
                            None => {
                                return None;
                            },
                        }
                    },
                    None => {},
                }
                if self.layout_engine.type_checker.is_scalar_enum(inner) {
                    self.ensure_abi_farr_cd();
                    return Some(
                        enum_farr_cd_src(
                            fname,
                            *n,
                            self.enum_variant_count(inner),
                            self.layout_engine.size_of(inner),
                        )
                    );
                }
                if is_abi_scalar(inner) {
                    self.ensure_abi_farr_cd();
                    return Some(
                        cat7(
                            "function ",
                            fname,
                            "(off) -> ptr {\n    ptr := gum_abi_farr_cd(off, ",
                            dec_text(*n).as_str(),
                            ", ",
                            dec_text(self.layout_engine.size_of(inner)).as_str(),
                            ")\n}\n",
                        )
                    );
                }
                let found = self.ensure_abi_cd(inner);
                match found {
                    Some(ic) => Some(
                        abi_statfarr_cd_helper_src(
                            fname,
                            ic.as_str(),
                            *n,
                            self.abi_head_bytes(inner),
                            self.layout_engine.size_of(inner),
                        )
                    ),
                    None => None,
                }
            },
            _ => None,
        }
    }
}

/// The calldata decoder of a string or an array.
#[verifier::opaque]
pub open spec fn ensure_abi_cd_spec(g: EnvV, st: StV, t: TypeV) -> (StV, Option<Seq<char>>)
    decreases t, 1nat,
{
    if str_type(t) {
        let st = ensure_spec(st, "gum_abi_str_cd"@, gum_abi_str_cd_src());
        (st, Some("gum_abi_str_cd"@))
    } else {
        match abi_struct_elem_spec(g, t) {
            Some(sn) => ensure_abi_struct_arr_cd_spec(g, st, sn),
            None => {
                let fname = "gum_abi_"@ + mangle_spec(t) + "_cd"@;
                if st.thunks.contains_key(fname) {
                    (st, Some(fname))
                } else {
                    let (st, found) = array_cd_src_spec(g, st, t, fname);
                    match found {
                        Some(src) => {
                            let st = ensure_spec(st, fname, src);
                            (st, Some(fname))
                        },
                        None => (st, None),
                    }
                }
            },
        }
    }
}

impl<'a> Translator<'a> {
    pub fn ensure_abi_cd(&mut self, t: &Type) -> (r: Option<String>)
        ensures
            final(self).env() == old(self).env(),
            ensure_abi_cd_spec(
                old(self).env(),
                old(self).st(),
                t@,
            ) == (final(self).st(), opt_text(r)),
        decreases t, 1nat,
    {
        proof {
            reveal(ensure_abi_cd_spec);
            reveal(array_cd_src_spec);
        }
        if is_str_type(t) {
            self.ensure_helper("gum_abi_str_cd", gum_abi_str_cd_helper_src());
            return Some(String::from_str("gum_abi_str_cd"));
        }
        match self.abi_struct_elem(t) {
            Some(sn) => {
                return self.ensure_abi_struct_arr_cd(sn.as_str());
            },
            None => {},
        }
        let fname = cat3("gum_abi_", abi_mangle(t).as_str(), "_cd");
        if self.has_helper(fname.as_str()) {
            return Some(fname);
        }
        let found = self.array_cd_src(t, fname.as_str());
        match found {
            Some(src) => {
                self.ensure_helper(fname.as_str(), src);
                Some(fname)
            },
            None => None,
        }
    }
}

/// The source of the memory decoder of an array.
#[verifier::opaque]
pub open spec fn array_mem_src_spec(
    g: EnvV,
    st: StV,
    t: TypeV,
    fname: Seq<char>,
) -> (StV, Option<Seq<char>>)
    decreases t, 0nat,
{
    match t {
        TypeV::Array(inner) => {
            if abi_dynamic(g.w, *inner) {
                let (st, found) = ensure_abi_mem_spec(g, st, *inner);
                match found {
                    Some(ic) => (st, Some(abi_dynarr_mem_src(fname, ic))),
                    None => (st, None),
                }
            } else if abi_scalar(*inner) || scalar_enum(g.w, *inner) {
                let st = ensure_abi_arr_mem_spec(g, st);
                (
                    st,
                    Some(
                        "function "@
                        + fname
                        + "(base, off, limit) -> ptr {\n    ptr := gum_abi_arr_mem(base, off, limit, "@
                        + dec(size_spec(g.w, g.lay.sizes, *inner) as nat)
                        + ")\n}\n"@
                    ),
                )
            } else {
                let (st, found) = ensure_abi_mem_spec(g, st, *inner);
                match found {
                    Some(ic) => (
                        st,
                        Some(
                            abi_starr_mem_src(
                                fname,
                                ic,
                                abi_head_bytes_spec(g, *inner),
                                size_spec(g.w, g.lay.sizes, *inner),
                            )
                        ),
                    ),
                    None => (st, None),
                }
            }
        },
        TypeV::FixedArray(inner, n) => {
            if abi_dynamic(g.w, *inner) {
                let (st, found) = ensure_abi_mem_spec(g, st, *inner);
                match found {
                    Some(ic) => (st, Some(abi_dynfarr_mem_src(fname, ic, n))),
                    None => (st, None),
                }
            } else {
                match abi_static_struct_spec(g, *inner) {
                    Some(sn) => {
                        let (st, found) = ensure_abi_struct_mem_spec(g, st, sn);
                        match found {
                            Some((st_fn, wire)) => (
                                st,
                                Some(
                                    abi_statfarr_mem_src(
                                        fname,
                                        st_fn,
                                        n,
                                        wire,
                                        abi_struct_packed_spec(g, sn),
                                    )
                                ),
                            ),
                            None => (st, None),
                        }
                    },
                    None => {
                        if abi_scalar(*inner) || scalar_enum(g.w, *inner) {
                            let st = ensure_abi_farr_mem_spec(g, st);
                            (
                                st,
                                Some(
                                    "function "@
                                    + fname
                                    + "(base, off, limit) -> ptr {\n    ptr := gum_abi_farr_mem(base, off, limit, "@
                                    + dec(n as nat)
                                    + ", "@
                                    + dec(size_spec(g.w, g.lay.sizes, *inner) as nat)
                                    + ")\n}\n"@
                                ),
                            )
                        } else {
                            let (st, found) = ensure_abi_mem_spec(g, st, *inner);
                            match found {
                                Some(ic) => (
                                    st,
                                    Some(
                                        abi_statfarr_mem_src(
                                            fname,
                                            ic,
                                            n,
                                            abi_head_bytes_spec(g, *inner),
                                            size_spec(g.w, g.lay.sizes, *inner),
                                        )
                                    ),
                                ),
                                None => (st, None),
                            }
                        }
                    },
                }
            }
        },
        _ => (st, None),
    }
}

impl<'a> Translator<'a> {
    pub(crate) fn array_mem_src(&mut self, t: &Type, fname: &str) -> (r: Option<String>)
        ensures
            final(self).env() == old(self).env(),
            array_mem_src_spec(
                old(self).env(),
                old(self).st(),
                t@,
                fname@,
            ) == (final(self).st(), opt_text(r)),
        decreases t, 0nat,
    {
        proof {
            reveal(array_mem_src_spec);
            reveal(ensure_abi_mem_spec);
        }
        match t {
            Type::Array(inner) => {
                if self.abi_is_dynamic(inner) {
                    let found = self.ensure_abi_mem(inner);
                    match found {
                        Some(ic) => {
                            return Some(abi_dynarr_mem_helper_src(fname, ic.as_str()));
                        },
                        None => {
                            return None;
                        },
                    }
                }
                if is_abi_scalar(inner) || self.layout_engine.type_checker.is_scalar_enum(inner) {
                    self.ensure_abi_arr_mem();
                    return Some(
                        cat5(
                            "function ",
                            fname,
                            "(base, off, limit) -> ptr {\n    ptr := gum_abi_arr_mem(base, off, limit, ",
                            dec_text(self.layout_engine.size_of(inner)).as_str(),
                            ")\n}\n",
                        )
                    );
                }
                let found = self.ensure_abi_mem(inner);
                match found {
                    Some(ic) => Some(
                        abi_starr_mem_helper_src(
                            fname,
                            ic.as_str(),
                            self.abi_head_bytes(inner),
                            self.layout_engine.size_of(inner),
                        )
                    ),
                    None => None,
                }
            },
            Type::FixedArray(inner, n) => {
                if self.abi_is_dynamic(inner) {
                    let found = self.ensure_abi_mem(inner);
                    match found {
                        Some(ic) => {
                            return Some(abi_dynfarr_mem_helper_src(fname, ic.as_str(), *n));
                        },
                        None => {
                            return None;
                        },
                    }
                }
                match self.abi_static_struct(inner) {
                    Some(sn) => {
                        let found = self.ensure_abi_struct_mem(sn.as_str());
                        match found {
                            Some((st_fn, wire)) => {
                                return Some(
                                    abi_statfarr_mem_helper_src(
                                        fname,
                                        st_fn.as_str(),
                                        *n,
                                        wire,
                                        self.abi_struct_packed(sn.as_str()),
                                    )
                                );
                            },
                            None => {
                                return None;
                            },
                        }
                    },
                    None => {},
                }
                if is_abi_scalar(inner) || self.layout_engine.type_checker.is_scalar_enum(inner) {
                    self.ensure_abi_farr_mem();
                    return Some(
                        cat7(
                            "function ",
                            fname,
                            "(base, off, limit) -> ptr {\n    ptr := gum_abi_farr_mem(base, off, limit, ",
                            dec_text(*n).as_str(),
                            ", ",
                            dec_text(self.layout_engine.size_of(inner)).as_str(),
                            ")\n}\n",
                        )
                    );
                }
                let found = self.ensure_abi_mem(inner);
                match found {
                    Some(ic) => Some(
                        abi_statfarr_mem_helper_src(
                            fname,
                            ic.as_str(),
                            *n,
                            self.abi_head_bytes(inner),
                            self.layout_engine.size_of(inner),
                        )
                    ),
                    None => None,
                }
            },
            _ => None,
        }
    }
}

/// The memory decoder of a string or an array.
#[verifier::opaque]
pub open spec fn ensure_abi_mem_spec(g: EnvV, st: StV, t: TypeV) -> (StV, Option<Seq<char>>)
    decreases t, 1nat,
{
    if str_type(t) {
        let st = ensure_spec(st, "gum_abi_str_mem"@, gum_abi_str_mem_src());
        (st, Some("gum_abi_str_mem"@))
    } else {
        match abi_struct_elem_spec(g, t) {
            Some(sn) => ensure_abi_struct_arr_mem_spec(g, st, sn),
            None => {
                let fname = "gum_abi_"@ + mangle_spec(t) + "_mem"@;
                if st.thunks.contains_key(fname) {
                    (st, Some(fname))
                } else {
                    let (st, found) = array_mem_src_spec(g, st, t, fname);
                    match found {
                        Some(src) => {
                            let st = ensure_spec(st, fname, src);
                            (st, Some(fname))
                        },
                        None => (st, None),
                    }
                }
            },
        }
    }
}

impl<'a> Translator<'a> {
    pub fn ensure_abi_mem(&mut self, t: &Type) -> (r: Option<String>)
        ensures
            final(self).env() == old(self).env(),
            ensure_abi_mem_spec(
                old(self).env(),
                old(self).st(),
                t@,
            ) == (final(self).st(), opt_text(r)),
        decreases t, 1nat,
    {
        proof {
            reveal(ensure_abi_mem_spec);
            reveal(array_mem_src_spec);
        }
        if is_str_type(t) {
            self.ensure_helper("gum_abi_str_mem", gum_abi_str_mem_helper_src());
            return Some(String::from_str("gum_abi_str_mem"));
        }
        match self.abi_struct_elem(t) {
            Some(sn) => {
                return self.ensure_abi_struct_arr_mem(sn.as_str());
            },
            None => {},
        }
        let fname = cat3("gum_abi_", abi_mangle(t).as_str(), "_mem");
        if self.has_helper(fname.as_str()) {
            return Some(fname);
        }
        let found = self.array_mem_src(t, fname.as_str());
        match found {
            Some(src) => {
                self.ensure_helper(fname.as_str(), src);
                Some(fname)
            },
            None => None,
        }
    }
}

/// What an encoder takes.
pub open spec fn put_params_spec() -> Seq<char> {
    "(dst, ptr)"@
}

pub(crate) fn put_params() -> (r: String)
    ensures
        r@ == put_params_spec(),
{
    String::from_str("(dst, ptr)")
}

/// What a size function takes.
pub open spec fn size_params_spec() -> Seq<char> {
    "(ptr)"@
}

pub(crate) fn size_params() -> (r: String)
    ensures
        r@ == size_params_spec(),
{
    String::from_str("(ptr)")
}

pub open spec fn fixed_size_src_spec(sname: Seq<char>, n: usize, width: usize) -> Seq<char> {
    "function "@ + sname + size_params_spec() + " -> sz {\n    ptr := ptr\n    sz := "@ + dec(
        n as nat * width as nat
    ) + "\n}\n"@
}

pub(crate) fn fixed_size_src(sname: &str, n: usize, width: usize) -> (r: String)
    ensures
        r@ == fixed_size_src_spec(sname@, n, width),
{
    cat6(
        "function ",
        sname,
        size_params().as_str(),
        " -> sz {\n    ptr := ptr\n    sz := ",
        dec_mul(n, width).as_str(),
        "\n}\n",
    )
}

/// Encodes a fixed array of fixed arrays, `wire` bytes apart on the wire and `packed`
/// in memory.
pub open spec fn nested_farr_put_src_spec(
    fname: Seq<char>,
    inner_put: Seq<char>,
    n: usize,
    wire: usize,
    packed: usize,
) -> Seq<char> {
    "function "@ + fname + put_params_spec() + " -> written {\n    for { let i := 0 } lt(i, "@ + dec(n as nat) + ") { i := add(i, 1) } {\n        pop("@ + inner_put + "(add(dst, mul(i, "@ + dec(wire as nat) + ")), add(ptr, mul(i, "@ + dec(packed as nat) + "))))\n    }\n    written := "@ + dec(
        n as nat * wire as nat
    ) + "\n}\n"@
}

pub(crate) fn nested_farr_put_src(
    fname: &str,
    inner_put: &str,
    n: usize,
    wire: usize,
    packed: usize,
) -> (r: String)
    ensures
        r@ == nested_farr_put_src_spec(fname@, inner_put@, n, wire, packed),
{
    cat6(
        cat9(
            "function ",
            fname,
            put_params().as_str(),
            " -> written {\n    for { let i := 0 } lt(i, ",
            dec_text(n).as_str(),
            ") { i := add(i, 1) } {\n        pop(",
            inner_put,
            "(add(dst, mul(i, ",
            dec_text(wire).as_str(),
        ).as_str(),
        ")), add(ptr, mul(i, ",
        dec_text(packed).as_str(),
        "))))\n    }\n    written := ",
        dec_mul(n, wire).as_str(),
        "\n}\n",
    )
}

/// The sources of the encoder of an array and of its size function.
#[verifier::opaque]
pub open spec fn array_put_src_spec(
    g: EnvV,
    st: StV,
    t: TypeV,
    fname: Seq<char>,
    sname: Seq<char>,
) -> (StV, Option<(Seq<char>, Seq<char>)>)
    decreases t, 0nat,
{
    match t {
        TypeV::Array(inner) => {
            if abi_dynamic(g.w, *inner) {
                let (st, found) = ensure_abi_put_spec(g, st, *inner);
                match found {
                    Some((ip, isz)) => (
                        st,
                        Some((abi_dynarr_put_src(fname, ip), abi_dynarr_size_src(sname, isz))),
                    ),
                    None => (st, None),
                }
            } else if abi_scalar(*inner) || scalar_enum(g.w, *inner) {
                let st = ensure_abi_arr_put_spec(g, st);
                (
                    st,
                    Some(
                        (
                            "function "@ + fname + put_params_spec() + " -> written {\n    written := gum_abi_arr_put(dst, ptr, "@ + dec(
                                size_spec(g.w, g.lay.sizes, *inner) as nat
                            ) + ")\n}\n"@,
                            "function "@ + sname + size_params_spec() + " -> sz {\n    sz := gum_abi_arr_size(ptr, "@ + dec(
                                size_spec(g.w, g.lay.sizes, *inner) as nat
                            ) + ")\n}\n"@,
                        )
                    ),
                )
            } else {
                let (st, found) = ensure_abi_put_spec(g, st, *inner);
                match found {
                    Some((ip, _)) => (
                        st,
                        Some(
                            (
                                abi_statarr_put_src(
                                    fname,
                                    ip,
                                    abi_head_bytes_spec(g, *inner),
                                    size_spec(g.w, g.lay.sizes, *inner),
                                ),
                                abi_starr_size_src(
                                    sname,
                                    abi_head_bytes_spec(g, *inner),
                                    size_spec(g.w, g.lay.sizes, *inner),
                                ),
                            )
                        ),
                    ),
                    None => (st, None),
                }
            }
        },
        TypeV::FixedArray(inner, n) => {
            if abi_dynamic(g.w, *inner) {
                let (st, found) = ensure_abi_put_spec(g, st, *inner);
                match found {
                    Some((ip, isz)) => (
                        st,
                        Some(
                            (abi_dynfarr_put_src(fname, ip, n), abi_dynfarr_size_src(sname, isz, n))
                        ),
                    ),
                    None => (st, None),
                }
            } else {
                match abi_static_struct_spec(g, *inner) {
                    Some(sn) => {
                        let (st, found) = ensure_abi_struct_put_spec(g, st, sn);
                        match found {
                            Some((st_fn, wire)) => (
                                st,
                                Some(
                                    (
                                        abi_statfarr_put_src(
                                            fname,
                                            st_fn,
                                            n,
                                            wire,
                                            abi_struct_packed_spec(g, sn),
                                        ),
                                        fixed_size_src_spec(sname, n, wire),
                                    )
                                ),
                            ),
                            None => (st, None),
                        }
                    },
                    None => {
                        if abi_scalar(*inner) || scalar_enum(g.w, *inner) {
                            let st = ensure_abi_farr_put_spec(g, st);
                            (
                                st,
                                Some(
                                    (
                                        "function "@ + fname + put_params_spec() + " -> written {\n    gum_abi_farr_put(dst, ptr, "@ + dec(n as nat) + ", "@ + dec(
                                            size_spec(g.w, g.lay.sizes, *inner) as nat
                                        ) + ")\n    written := "@ + dec(n as nat * 32usize as nat) + "\n}\n"@,
                                        fixed_size_src_spec(sname, n, 32usize),
                                    )
                                ),
                            )
                        } else {
                            let (st, found) = ensure_abi_put_spec(g, st, *inner);
                            match found {
                                Some((ip, _)) => (
                                    st,
                                    Some(
                                        (
                                            nested_farr_put_src_spec(
                                                fname,
                                                ip,
                                                n,
                                                abi_head_bytes_spec(g, *inner),
                                                size_spec(g.w, g.lay.sizes, *inner),
                                            ),
                                            fixed_size_src_spec(
                                                sname,
                                                n,
                                                abi_head_bytes_spec(g, *inner),
                                            ),
                                        )
                                    ),
                                ),
                                None => (st, None),
                            }
                        }
                    },
                }
            }
        },
        _ => (st, None),
    }
}

impl<'a> Translator<'a> {
    pub(crate) fn array_put_src(
        &mut self,
        t: &Type,
        fname: &str,
        sname: &str,
    ) -> (r: Option<(String, String)>)
        ensures
            final(self).env() == old(self).env(),
            array_put_src_spec(old(self).env(), old(self).st(), t@, fname@, sname@) == (
                final(self).st(),
                (match r { Some(x) => Some((x.0@, x.1@)), None => None }),
            ),
        decreases t, 0nat,
    {
        proof {
            reveal(array_put_src_spec);
            reveal(ensure_abi_put_spec);
        }
        match t {
            Type::Array(inner) => {
                if self.abi_is_dynamic(inner) {
                    let found = self.ensure_abi_put(inner);
                    match found {
                        Some((ip, isz)) => {
                            return Some(
                                (
                                    abi_dynarr_put_helper_src(fname, ip.as_str()),
                                    abi_dynarr_size_helper_src(sname, isz.as_str()),
                                )
                            );
                        },
                        None => {
                            return None;
                        },
                    }
                }
                if is_abi_scalar(inner) || self.layout_engine.type_checker.is_scalar_enum(inner) {
                    self.ensure_abi_arr_put();
                    return Some(
                        (
                            cat6(
                                "function ",
                                fname,
                                put_params().as_str(),
                                " -> written {\n    written := gum_abi_arr_put(dst, ptr, ",
                                dec_text(self.layout_engine.size_of(inner)).as_str(),
                                ")\n}\n",
                            ),
                            cat6(
                                "function ",
                                sname,
                                size_params().as_str(),
                                " -> sz {\n    sz := gum_abi_arr_size(ptr, ",
                                dec_text(self.layout_engine.size_of(inner)).as_str(),
                                ")\n}\n",
                            ),
                        )
                    );
                }
                let found = self.ensure_abi_put(inner);
                match found {
                    Some((ip, _)) => Some(
                        (
                            abi_statarr_put_helper_src(
                                fname,
                                ip.as_str(),
                                self.abi_head_bytes(inner),
                                self.layout_engine.size_of(inner),
                            ),
                            abi_starr_size_helper_src(
                                sname,
                                self.abi_head_bytes(inner),
                                self.layout_engine.size_of(inner),
                            ),
                        )
                    ),
                    None => None,
                }
            },
            Type::FixedArray(inner, n) => {
                if self.abi_is_dynamic(inner) {
                    let found = self.ensure_abi_put(inner);
                    match found {
                        Some((ip, isz)) => {
                            return Some(
                                (
                                    abi_dynfarr_put_helper_src(fname, ip.as_str(), *n),
                                    abi_dynfarr_size_helper_src(sname, isz.as_str(), *n),
                                )
                            );
                        },
                        None => {
                            return None;
                        },
                    }
                }
                match self.abi_static_struct(inner) {
                    Some(sn) => {
                        let found = self.ensure_abi_struct_put(sn.as_str());
                        match found {
                            Some((st_fn, wire)) => {
                                return Some(
                                    (
                                        abi_statfarr_put_helper_src(
                                            fname,
                                            st_fn.as_str(),
                                            *n,
                                            wire,
                                            self.abi_struct_packed(sn.as_str()),
                                        ),
                                        fixed_size_src(sname, *n, wire),
                                    )
                                );
                            },
                            None => {
                                return None;
                            },
                        }
                    },
                    None => {},
                }
                if is_abi_scalar(inner) || self.layout_engine.type_checker.is_scalar_enum(inner) {
                    self.ensure_abi_farr_put();
                    return Some(
                        (
                            cat2(
                                cat9(
                                    "function ",
                                    fname,
                                    put_params().as_str(),
                                    " -> written {\n    gum_abi_farr_put(dst, ptr, ",
                                    dec_text(*n).as_str(),
                                    ", ",
                                    dec_text(self.layout_engine.size_of(inner)).as_str(),
                                    ")\n    written := ",
                                    dec_mul(*n, 32).as_str(),
                                ).as_str(),
                                "\n}\n",
                            ),
                            fixed_size_src(sname, *n, 32),
                        )
                    );
                }
                let found = self.ensure_abi_put(inner);
                match found {
                    Some((ip, _)) => Some(
                        (
                            nested_farr_put_src(
                                fname,
                                ip.as_str(),
                                *n,
                                self.abi_head_bytes(inner),
                                self.layout_engine.size_of(inner),
                            ),
                            fixed_size_src(sname, *n, self.abi_head_bytes(inner)),
                        )
                    ),
                    None => None,
                }
            },
            _ => None,
        }
    }
}

/// The encoder of a string or an array, and its size function.
#[verifier::opaque]
pub open spec fn ensure_abi_put_spec(
    g: EnvV,
    st: StV,
    t: TypeV,
) -> (StV, Option<(Seq<char>, Seq<char>)>)
    decreases t, 1nat,
{
    if str_type(t) {
        let st = ensure_spec(st, "gum_abi_str_put"@, gum_abi_str_put_src());
        let st = ensure_spec(st, "gum_abi_str_size"@, gum_abi_str_size_src());
        (st, Some(("gum_abi_str_put"@, "gum_abi_str_size"@)))
    } else {
        match abi_struct_elem_spec(g, t) {
            Some(sn) => ensure_abi_struct_arr_put_spec(g, st, sn),
            None => {
                let fname = "gum_abi_"@ + mangle_spec(t) + "_put"@;
                let sname = "gum_abi_"@ + mangle_spec(t) + "_size"@;
                if st.thunks.contains_key(fname) {
                    (st, Some((fname, sname)))
                } else {
                    let (st, found) = array_put_src_spec(g, st, t, fname, sname);
                    match found {
                        Some((psrc, ssrc)) => {
                            let st = ensure_spec(st, fname, psrc);
                            let st = ensure_spec(st, sname, ssrc);
                            (st, Some((fname, sname)))
                        },
                        None => (st, None),
                    }
                }
            },
        }
    }
}

impl<'a> Translator<'a> {
    pub fn ensure_abi_put(&mut self, t: &Type) -> (r: Option<(String, String)>)
        ensures
            final(self).env() == old(self).env(),
            ensure_abi_put_spec(old(self).env(), old(self).st(), t@) == (
                final(self).st(),
                (match r { Some(x) => Some((x.0@, x.1@)), None => None }),
            ),
        decreases t, 1nat,
    {
        proof {
            reveal(ensure_abi_put_spec);
            reveal(array_put_src_spec);
        }
        if is_str_type(t) {
            self.ensure_helper("gum_abi_str_put", gum_abi_str_put_helper_src());
            self.ensure_helper("gum_abi_str_size", gum_abi_str_size_helper_src());
            return Some(
                (String::from_str("gum_abi_str_put"), String::from_str("gum_abi_str_size"))
            );
        }
        match self.abi_struct_elem(t) {
            Some(sn) => {
                return self.ensure_abi_struct_arr_put(sn.as_str());
            },
            None => {},
        }
        let fname = cat3("gum_abi_", abi_mangle(t).as_str(), "_put");
        let sname = cat3("gum_abi_", abi_mangle(t).as_str(), "_size");
        if self.has_helper(fname.as_str()) {
            return Some((fname, sname));
        }
        let found = self.array_put_src(t, fname.as_str(), sname.as_str());
        match found {
            Some((psrc, ssrc)) => {
                self.ensure_helper(fname.as_str(), psrc);
                self.ensure_helper(sname.as_str(), ssrc);
                Some((fname, sname))
            },
            None => None,
        }
    }
}

/// The calldata decoders of the fields of dynamic size among the first `n`; `None` as
/// soon as one has none.
pub open spec fn sub_cd(g: EnvV, st: StV, fs: Seq<DynFieldV>, n: nat) -> (
    StV,
    Option<Seq<Option<Seq<char>>>>,
)
    decreases n,
{
    if n == 0 {
        (st, Some(Seq::empty()))
    } else {
        let (st, out) = sub_cd(g, st, fs, (n - 1) as nat);
        match out {
            Some(s) => if fs[n - 1].is_dynamic {
                let (st, one) = ensure_abi_cd_spec(g, st, fs[n - 1].ty);
                match one {
                    Some(h) => (st, Some(s.push(Some(h)))),
                    None => (st, None),
                }
            } else {
                (st, Some(s.push(None)))
            },
            None => (st, None),
        }
    }
}

proof fn lemma_sub_cd_none(g: EnvV, st: StV, fs: Seq<DynFieldV>, n: nat, m: nat)
    requires
        n <= m,
        sub_cd(g, st, fs, n).1 is None,
    ensures
        sub_cd(g, st, fs, m) == sub_cd(g, st, fs, n),
    decreases m,
{
    if n < m {
        lemma_sub_cd_none(g, st, fs, n, (m - 1) as nat);
    }
}

impl<'a> Translator<'a> {
    fn ensure_sub_cd(&mut self, fs: &Vec<AbiDynField>) -> (r: Option<Vec<Option<String>>>)
        ensures
            final(self).env() == old(self).env(),
            sub_cd(old(self).env(), old(self).st(), dyn_fields_v(fs@), fs@.len()) == (
                final(self).st(),
                match r {
                    Some(v) => Some(opt_texts(v@)),
                    None => None,
                },
            ),
            r matches Some(v) ==> v@.len() == fs@.len(),
    {
        let ghost g = self.env();
        let ghost st0 = self.st();
        let ghost fv = dyn_fields_v(fs@);
        let mut out: Vec<Option<String>> = Vec::new();
        let mut i: usize = 0;
        assert(opt_texts(out@) =~= Seq::<Option<Seq<char>>>::empty());
        while i < fs.len()
            invariant
                i <= fs@.len(),
                g == old(self).env(),
                st0 == old(self).st(),
                self.env() == g,
                fv == dyn_fields_v(fs@),
                out@.len() == i,
                sub_cd(g, st0, fv, i as nat) == (self.st(), Some(opt_texts(out@))),
            decreases fs@.len() - i,
        {
            let ghost before = opt_texts(out@);
            assert(fv[i as int] == fs@[i as int]@);
            if fs[i].is_dynamic {
                match self.ensure_abi_cd(&fs[i].ty) {
                    Some(h) => {
                        let ghost hv = h@;
                        out.push(Some(h));
                        assert(opt_texts(out@) =~= before.push(Some(hv)));
                    },
                    None => {
                        proof {
                            lemma_sub_cd_none(g, st0, fv, (i + 1) as nat, fs@.len());
                        }
                        return None;
                    },
                }
            } else {
                out.push(None);
                assert(opt_texts(out@) =~= before.push(None));
            }
            i += 1;
        }
        Some(out)
    }
}

/// The memory decoders of the fields of dynamic size among the first `n`; `None` as
/// soon as one has none.
pub open spec fn sub_mem(g: EnvV, st: StV, fs: Seq<DynFieldV>, n: nat) -> (
    StV,
    Option<Seq<Option<Seq<char>>>>,
)
    decreases n,
{
    if n == 0 {
        (st, Some(Seq::empty()))
    } else {
        let (st, out) = sub_mem(g, st, fs, (n - 1) as nat);
        match out {
            Some(s) => if fs[n - 1].is_dynamic {
                let (st, one) = ensure_abi_mem_spec(g, st, fs[n - 1].ty);
                match one {
                    Some(h) => (st, Some(s.push(Some(h)))),
                    None => (st, None),
                }
            } else {
                (st, Some(s.push(None)))
            },
            None => (st, None),
        }
    }
}

proof fn lemma_sub_mem_none(g: EnvV, st: StV, fs: Seq<DynFieldV>, n: nat, m: nat)
    requires
        n <= m,
        sub_mem(g, st, fs, n).1 is None,
    ensures
        sub_mem(g, st, fs, m) == sub_mem(g, st, fs, n),
    decreases m,
{
    if n < m {
        lemma_sub_mem_none(g, st, fs, n, (m - 1) as nat);
    }
}

impl<'a> Translator<'a> {
    fn ensure_sub_mem(&mut self, fs: &Vec<AbiDynField>) -> (r: Option<Vec<Option<String>>>)
        ensures
            final(self).env() == old(self).env(),
            sub_mem(old(self).env(), old(self).st(), dyn_fields_v(fs@), fs@.len()) == (
                final(self).st(),
                match r {
                    Some(v) => Some(opt_texts(v@)),
                    None => None,
                },
            ),
            r matches Some(v) ==> v@.len() == fs@.len(),
    {
        let ghost g = self.env();
        let ghost st0 = self.st();
        let ghost fv = dyn_fields_v(fs@);
        let mut out: Vec<Option<String>> = Vec::new();
        let mut i: usize = 0;
        assert(opt_texts(out@) =~= Seq::<Option<Seq<char>>>::empty());
        while i < fs.len()
            invariant
                i <= fs@.len(),
                g == old(self).env(),
                st0 == old(self).st(),
                self.env() == g,
                fv == dyn_fields_v(fs@),
                out@.len() == i,
                sub_mem(g, st0, fv, i as nat) == (self.st(), Some(opt_texts(out@))),
            decreases fs@.len() - i,
        {
            let ghost before = opt_texts(out@);
            assert(fv[i as int] == fs@[i as int]@);
            if fs[i].is_dynamic {
                match self.ensure_abi_mem(&fs[i].ty) {
                    Some(h) => {
                        let ghost hv = h@;
                        out.push(Some(h));
                        assert(opt_texts(out@) =~= before.push(Some(hv)));
                    },
                    None => {
                        proof {
                            lemma_sub_mem_none(g, st0, fv, (i + 1) as nat, fs@.len());
                        }
                        return None;
                    },
                }
            } else {
                out.push(None);
                assert(opt_texts(out@) =~= before.push(None));
            }
            i += 1;
        }
        Some(out)
    }
}

/// The encoders and the size functions of the fields of dynamic size among the
/// first `n`; `None` as soon as one has none.
pub open spec fn sub_put(g: EnvV, st: StV, fs: Seq<DynFieldV>, n: nat) -> (
    StV,
    Option<(Seq<Option<Seq<char>>>, Seq<Option<Seq<char>>>)>,
)
    decreases n,
{
    if n == 0 {
        (st, Some((Seq::empty(), Seq::empty())))
    } else {
        let (st, out) = sub_put(g, st, fs, (n - 1) as nat);
        match out {
            Some((puts, sizes)) => if fs[n - 1].is_dynamic {
                let (st, one) = ensure_abi_put_spec(g, st, fs[n - 1].ty);
                match one {
                    Some((p, s)) => (st, Some((puts.push(Some(p)), sizes.push(Some(s))))),
                    None => (st, None),
                }
            } else {
                (st, Some((puts.push(None), sizes.push(None))))
            },
            None => (st, None),
        }
    }
}

proof fn lemma_sub_put_none(g: EnvV, st: StV, fs: Seq<DynFieldV>, n: nat, m: nat)
    requires
        n <= m,
        sub_put(g, st, fs, n).1 is None,
    ensures
        sub_put(g, st, fs, m) == sub_put(g, st, fs, n),
    decreases m,
{
    if n < m {
        lemma_sub_put_none(g, st, fs, n, (m - 1) as nat);
    }
}

impl<'a> Translator<'a> {
    fn ensure_sub_put(&mut self, fs: &Vec<AbiDynField>) -> (r: Option<
        (Vec<Option<String>>, Vec<Option<String>>),
    >)
        ensures
            final(self).env() == old(self).env(),
            sub_put(old(self).env(), old(self).st(), dyn_fields_v(fs@), fs@.len()) == (
                final(self).st(),
                match r {
                    Some(v) => Some((opt_texts(v.0@), opt_texts(v.1@))),
                    None => None,
                },
            ),
            r matches Some(v) ==> v.0@.len() == fs@.len() && v.1@.len() == fs@.len(),
    {
        let ghost g = self.env();
        let ghost st0 = self.st();
        let ghost fv = dyn_fields_v(fs@);
        let mut puts: Vec<Option<String>> = Vec::new();
        let mut sizes: Vec<Option<String>> = Vec::new();
        let mut i: usize = 0;
        assert(opt_texts(puts@) =~= Seq::<Option<Seq<char>>>::empty());
        assert(opt_texts(sizes@) =~= Seq::<Option<Seq<char>>>::empty());
        while i < fs.len()
            invariant
                i <= fs@.len(),
                g == old(self).env(),
                st0 == old(self).st(),
                self.env() == g,
                fv == dyn_fields_v(fs@),
                puts@.len() == i,
                sizes@.len() == i,
                sub_put(g, st0, fv, i as nat) == (
                    self.st(),
                    Some((opt_texts(puts@), opt_texts(sizes@))),
                ),
            decreases fs@.len() - i,
        {
            let ghost pb = opt_texts(puts@);
            let ghost sb = opt_texts(sizes@);
            assert(fv[i as int] == fs@[i as int]@);
            if fs[i].is_dynamic {
                match self.ensure_abi_put(&fs[i].ty) {
                    Some((p, s)) => {
                        let ghost pv = p@;
                        let ghost sv = s@;
                        puts.push(Some(p));
                        sizes.push(Some(s));
                        assert(opt_texts(puts@) =~= pb.push(Some(pv)));
                        assert(opt_texts(sizes@) =~= sb.push(Some(sv)));
                    },
                    None => {
                        proof {
                            lemma_sub_put_none(g, st0, fv, (i + 1) as nat, fs@.len());
                        }
                        return None;
                    },
                }
            } else {
                puts.push(None);
                sizes.push(None);
                assert(opt_texts(puts@) =~= pb.push(None));
                assert(opt_texts(sizes@) =~= sb.push(None));
            }
            i += 1;
        }
        Some((puts, sizes))
    }
}

/// The calldata decoder of a dynamic tuple.
#[verifier::opaque]
pub open spec fn ensure_abi_dyn_struct_cd_spec(
    g: EnvV,
    st: StV,
    name: Seq<char>,
) -> (StV, Option<Seq<char>>) {
    match dyn_struct_layout(g, name) {
        Some(fields) => {
            let fname = "gum_abi_dst_"@ + name + "_cd"@;
            if st.thunks.contains_key(fname) {
                (st, Some(fname))
            } else {
                let (st, found) = sub_cd(g, st, fields, fields.len());
                match found {
                    Some(sub) => {
                        let st = ensure_spec(
                            st,
                            fname,
                            dyn_struct_cd_src(fname, fields, sub, abi_struct_packed_spec(g, name)),
                        );
                        (st, Some(fname))
                    },
                    None => (st, None),
                }
            }
        },
        None => (st, None),
    }
}

impl<'a> Translator<'a> {
    pub fn ensure_abi_dyn_struct_cd(&mut self, name: &str) -> (r: Option<String>)
        ensures
            final(self).env() == old(self).env(),
            ensure_abi_dyn_struct_cd_spec(
                old(self).env(),
                old(self).st(),
                name@,
            ) == (final(self).st(), opt_text(r)),
    {
        proof {
            reveal(ensure_abi_dyn_struct_cd_spec);
        }
        match self.abi_dyn_struct_layout(name) {
            Some(fields) => {
                let fname = cat3("gum_abi_dst_", name, "_cd");
                if self.has_helper(fname.as_str()) {
                    return Some(fname);
                }
                let found = self.ensure_sub_cd(&fields);
                match found {
                    Some(sub) => {
                        self.ensure_helper(
                            fname.as_str(),
                            build_dyn_struct_cd(
                                fname.as_str(),
                                &fields,
                                &sub,
                                self.abi_struct_packed(name),
                            ),
                        );
                        Some(fname)
                    },
                    None => None,
                }
            },
            None => None,
        }
    }
}

/// The memory decoder of a dynamic tuple.
#[verifier::opaque]
pub open spec fn ensure_abi_dyn_struct_mem_spec(
    g: EnvV,
    st: StV,
    name: Seq<char>,
) -> (StV, Option<Seq<char>>) {
    match dyn_struct_layout(g, name) {
        Some(fields) => {
            let fname = "gum_abi_dst_"@ + name + "_mem"@;
            if st.thunks.contains_key(fname) {
                (st, Some(fname))
            } else {
                let (st, found) = sub_mem(g, st, fields, fields.len());
                match found {
                    Some(sub) => {
                        let st = ensure_spec(
                            st,
                            fname,
                            dyn_struct_mem_src(fname, fields, sub, abi_struct_packed_spec(g, name)),
                        );
                        (st, Some(fname))
                    },
                    None => (st, None),
                }
            }
        },
        None => (st, None),
    }
}

impl<'a> Translator<'a> {
    pub fn ensure_abi_dyn_struct_mem(&mut self, name: &str) -> (r: Option<String>)
        ensures
            final(self).env() == old(self).env(),
            ensure_abi_dyn_struct_mem_spec(
                old(self).env(),
                old(self).st(),
                name@,
            ) == (final(self).st(), opt_text(r)),
    {
        proof {
            reveal(ensure_abi_dyn_struct_mem_spec);
        }
        match self.abi_dyn_struct_layout(name) {
            Some(fields) => {
                let fname = cat3("gum_abi_dst_", name, "_mem");
                if self.has_helper(fname.as_str()) {
                    return Some(fname);
                }
                let found = self.ensure_sub_mem(&fields);
                match found {
                    Some(sub) => {
                        self.ensure_helper(
                            fname.as_str(),
                            build_dyn_struct_mem(
                                fname.as_str(),
                                &fields,
                                &sub,
                                self.abi_struct_packed(name),
                            ),
                        );
                        Some(fname)
                    },
                    None => None,
                }
            },
            None => None,
        }
    }
}

/// The encoder of a dynamic tuple, and its size function.
#[verifier::opaque]
pub open spec fn ensure_abi_dyn_struct_put_spec(
    g: EnvV,
    st: StV,
    name: Seq<char>,
) -> (StV, Option<(Seq<char>, Seq<char>)>) {
    match dyn_struct_layout(g, name) {
        Some(fields) => {
            let fname = "gum_abi_dst_"@ + name + "_put"@;
            let sname = "gum_abi_dst_"@ + name + "_size"@;
            if st.thunks.contains_key(fname) {
                (st, Some((fname, sname)))
            } else {
                let (st, found) = sub_put(g, st, fields, fields.len());
                match found {
                    Some((puts, sizes)) => {
                        let st = ensure_spec(st, fname, dyn_struct_put_src(fname, fields, puts));
                        let st = ensure_spec(st, sname, dyn_struct_size_src(sname, fields, sizes));
                        (st, Some((fname, sname)))
                    },
                    None => (st, None),
                }
            }
        },
        None => (st, None),
    }
}

impl<'a> Translator<'a> {
    pub fn ensure_abi_dyn_struct_put(&mut self, name: &str) -> (r: Option<(String, String)>)
        ensures
            final(self).env() == old(self).env(),
            ensure_abi_dyn_struct_put_spec(old(self).env(), old(self).st(), name@) == (
                final(self).st(),
                (match r { Some(x) => Some((x.0@, x.1@)), None => None }),
            ),
    {
        proof {
            reveal(ensure_abi_dyn_struct_put_spec);
        }
        match self.abi_dyn_struct_layout(name) {
            Some(fields) => {
                let fname = cat3("gum_abi_dst_", name, "_put");
                let sname = cat3("gum_abi_dst_", name, "_size");
                if self.has_helper(fname.as_str()) {
                    return Some((fname, sname));
                }
                let found = self.ensure_sub_put(&fields);
                match found {
                    Some((puts, sizes)) => {
                        self.ensure_helper(
                            fname.as_str(),
                            build_dyn_struct_put(fname.as_str(), &fields, &puts),
                        );
                        self.ensure_helper(
                            sname.as_str(),
                            build_dyn_struct_size(sname.as_str(), &fields, &sizes),
                        );
                        Some((fname, sname))
                    },
                    None => None,
                }
            },
            None => None,
        }
    }
}

} // verus!
