//! What holds of the encoders: a type's encoder and its size function are registered
//! together, each under the name that its text declares.
use crate::ast::TypeV;
use crate::codegen::helpers::{
    abi_starr_put_src, abi_starr_size_src, gum_abi_arr_put_src, gum_abi_arr_size_src,
    gum_abi_farr_put_src, gum_abi_str_put_src, gum_abi_str_size_src,
};
use crate::codegen::tr_codec::{
    abi_static_struct_spec, abi_struct_elem_spec, abi_struct_packed_spec, array_cd_src_spec,
    array_mem_src_spec, array_put_src_spec, ensure_abi_arr_cd_spec, ensure_abi_arr_mem_spec,
    ensure_abi_arr_put_spec, ensure_abi_cd_spec, ensure_abi_farr_cd_spec,
    ensure_abi_farr_mem_spec, ensure_abi_farr_put_spec, ensure_abi_mem_spec, ensure_abi_put_spec,
    ensure_abi_struct_arr_cd_spec, ensure_abi_struct_arr_mem_spec, ensure_abi_struct_arr_put_spec,
    ensure_abi_struct_cd_spec, ensure_abi_struct_mem_spec, ensure_abi_struct_put_spec,
};
use crate::codegen::translator::{ensure_spec, start_spec, EnvV, StV};
use crate::codegen::yul::{mangle_spec, str_type};
use crate::text::begins;
use vstd::prelude::*;

verus! {

/// The name of the encoder that is kept under a key.
pub open spec fn put_name(x: Seq<char>) -> Seq<char> {
    "gum_abi_"@ + x + "_put"@
}

/// The name of the size function that is kept under a key.
pub open spec fn size_name(x: Seq<char>) -> Seq<char> {
    "gum_abi_"@ + x + "_size"@
}

/// The key of the encoder of a type.
pub open spec fn encoder_key(g: EnvV, t: TypeV) -> Seq<char> {
    if str_type(t) {
        "str"@
    } else {
        match abi_struct_elem_spec(g, t) {
            Some(sn) => "starr_"@ + sn,
            None => mangle_spec(t),
        }
    }
}

/// Whether a key is that of a text or of an array, and not that of a helper of theirs.
pub open spec fn is_key(x: Seq<char>) -> bool {
    x == "str"@ || begins(x, "arr_"@) || begins(x, "starr_"@) || (begins(x, "farr"@) && x
        != "farr"@)
}

/// Whether a text declares the encoder `name`.
pub open spec fn heads_put(src: Seq<char>, name: Seq<char>) -> bool {
    begins(src, "function "@ + name + "(dst, ptr)"@)
}

/// Whether a text declares the size function `name`.
pub open spec fn heads_size(src: Seq<char>, name: Seq<char>) -> bool {
    begins(src, "function "@ + name + "(ptr)"@)
}

/// Whether what is registered under a key is an encoder with its size function.
pub open spec fn sound_pair(st: StV, x: Seq<char>) -> bool {
    &&& st.thunks.contains_key(put_name(x)) ==> st.thunks.contains_key(size_name(x)) && heads_put(
        st.thunks[put_name(x)],
        put_name(x),
    )
    &&& st.thunks.contains_key(size_name(x)) ==> heads_size(
        st.thunks[size_name(x)],
        size_name(x),
    )
}

proof fn lemma_names(x: Seq<char>, y: Seq<char>)
    ensures
        put_name(x) == put_name(y) ==> x == y,
        size_name(x) == size_name(y) ==> x == y,
        put_name(x) != size_name(y),
{
    reveal_strlit("gum_abi_");
    reveal_strlit("_put");
    reveal_strlit("_size");
    assert(put_name(x).last() == 't' && size_name(y).last() == 'e');
    assert(x =~= put_name(x).subrange(8, put_name(x).len() - 4));
    assert(y =~= put_name(y).subrange(8, put_name(y).len() - 4));
    assert(x =~= size_name(x).subrange(8, size_name(x).len() - 5));
    assert(y =~= size_name(y).subrange(8, size_name(y).len() - 5));
}

/// A name that ends otherwise is neither that of an encoder nor of a size function.
proof fn lemma_other_end(name: Seq<char>, x: Seq<char>)
    requires
        name.len() > 0,
        name.last() != 't',
        name.last() != 'e',
    ensures
        name != put_name(x),
        name != size_name(x),
{
    reveal_strlit("_put");
    reveal_strlit("_size");
    assert(put_name(x).last() == 't' && size_name(x).last() == 'e');
}

/// The keys under which the helpers of the encoders stand are no keys of encoders.
proof fn lemma_helper_keys(x: Seq<char>, name: Seq<char>)
    requires
        is_key(x),
    ensures
        x != "arr"@,
        x != "farr"@,
        x != "st_"@ + name,
        "gum_abi_arr_put"@ == put_name("arr"@),
        "gum_abi_arr_size"@ == size_name("arr"@),
        "gum_abi_farr_put"@ == put_name("farr"@),
        "gum_abi_str_put"@ == put_name("str"@),
        "gum_abi_str_size"@ == size_name("str"@),
        "gum_abi_st_"@ + name + "_put"@ == put_name("st_"@ + name),
        "gum_abi_starr_"@ + name + "_put"@ == put_name("starr_"@ + name),
        "gum_abi_starr_"@ + name + "_size"@ == size_name("starr_"@ + name),
{
    reveal_strlit("str");
    reveal_strlit("arr");
    reveal_strlit("farr");
    reveal_strlit("arr_");
    reveal_strlit("starr_");
    reveal_strlit("st_");
    reveal_strlit("gum_abi_");
    reveal_strlit("_put");
    reveal_strlit("_size");
    reveal_strlit("gum_abi_arr_put");
    reveal_strlit("gum_abi_arr_size");
    reveal_strlit("gum_abi_farr_put");
    reveal_strlit("gum_abi_str_put");
    reveal_strlit("gum_abi_str_size");
    reveal_strlit("gum_abi_st_");
    reveal_strlit("gum_abi_starr_");
    assert("gum_abi_arr_put"@ =~= put_name("arr"@));
    assert("gum_abi_arr_size"@ =~= size_name("arr"@));
    assert("gum_abi_farr_put"@ =~= put_name("farr"@));
    assert("gum_abi_str_put"@ =~= put_name("str"@));
    assert("gum_abi_str_size"@ =~= size_name("str"@));
    assert("gum_abi_st_"@ + name + "_put"@ =~= put_name("st_"@ + name));
    assert("gum_abi_starr_"@ + name + "_put"@ =~= put_name("starr_"@ + name));
    assert("gum_abi_starr_"@ + name + "_size"@ =~= size_name("starr_"@ + name));
    if begins(x, "arr_"@) {
        assert(x.subrange(0, 4)[0] == 'a' && x.subrange(0, 4)[3] == '_');
    }
    if begins(x, "starr_"@) {
        assert(x.subrange(0, 6)[0] == 's' && x.subrange(0, 6)[2] == 'a');
    }
    if begins(x, "farr"@) {
        assert(x.subrange(0, 4)[0] == 'f');
    }
    assert("str"@[2] == 'r' && "arr"@[0] == 'a' && "farr"@[0] == 'f');
    assert(("st_"@ + name)[0] == 's' && ("st_"@ + name)[2] == '_');
}

/// The key of an array or a text is a key.
proof fn lemma_is_key(g: EnvV, t: TypeV)
    requires
        t is Array || t is FixedArray || str_type(t),
    ensures
        is_key(encoder_key(g, t)),
{
    reveal_strlit("arr_");
    reveal_strlit("starr_");
    reveal_strlit("farr");
    reveal_strlit("_");
    if !str_type(t) {
        match abi_struct_elem_spec(g, t) {
            Some(sn) => {
                let x = "starr_"@ + sn;
                assert(x.subrange(0, 6) =~= "starr_"@);
            },
            None => {
                let x = mangle_spec(t);
                match t {
                    TypeV::Array(_) => {
                        assert(x.subrange(0, 4) =~= "arr_"@);
                    },
                    TypeV::FixedArray(_, n) => {
                        assert(x.subrange(0, 4) =~= "farr"@);
                        assert(x.len() > 4);
                    },
                    _ => {},
                }
            },
        }
    }
}

/// A text that starts with a head goes on starting with it.
broadcast proof fn lemma_goes_on(s: Seq<char>, r: Seq<char>, p: Seq<char>)
    requires
        begins(s, p),
    ensures
        #[trigger] begins(s + r, p),
{
    assert((s + r).subrange(0, p.len() as int) =~= s.subrange(0, p.len() as int));
}

/// A text starts with itself.
proof fn lemma_starts(s: Seq<char>)
    ensures
        begins(s, s),
{
    assert(s.subrange(0, s.len() as int) =~= s);
}

/// The sources of an array's codec declare the names they are registered under.
proof fn lemma_array_heads(g: EnvV, st: StV, t: TypeV, fname: Seq<char>, sname: Seq<char>)
    ensures
        array_put_src_spec(g, st, t, fname, sname).1 matches Some((p, s)) ==> heads_put(p, fname)
            && heads_size(s, sname),
{
    broadcast use lemma_goes_on;

    reveal(array_put_src_spec);
    reveal(ensure_abi_put_spec);
    lemma_starts("function "@ + fname + "(dst, ptr)"@);
    lemma_starts("function "@ + sname + "(ptr)"@);
}

proof fn lemma_struct_heads(name: Seq<char>, st_fn: Seq<char>, wire: usize, packed: usize)
    ensures
        heads_put(abi_starr_put_src(name, st_fn, wire, packed), name),
        heads_size(abi_starr_size_src(name, wire, packed), name),
{
    broadcast use lemma_goes_on;

    lemma_starts("function "@ + name + "(dst, ptr)"@);
    lemma_starts("function "@ + name + "(ptr)"@);
}

proof fn lemma_text_heads()
    ensures
        heads_put(gum_abi_str_put_src(), "gum_abi_str_put"@),
        heads_size(gum_abi_str_size_src(), "gum_abi_str_size"@),
{
    broadcast use lemma_goes_on;

    lemma_starts("function "@ + "gum_abi_str_put"@ + "(dst, ptr)"@);
    lemma_starts("function "@ + "gum_abi_str_size"@ + "(ptr)"@);
}

/// Registering a pair keeps what stands under every key.
proof fn lemma_pair(st: StV, y: Seq<char>, psrc: Seq<char>, ssrc: Seq<char>, x: Seq<char>)
    requires
        sound_pair(st, x),
        heads_put(psrc, put_name(y)),
        heads_size(ssrc, size_name(y)),
    ensures
        ({
            let after = ensure_spec(ensure_spec(st, put_name(y), psrc), size_name(y), ssrc);
            sound_pair(after, x) && after.thunks.contains_key(put_name(y))
                && after.thunks.contains_key(size_name(y))
        }),
{
    lemma_names(x, y);
    lemma_names(y, x);
}

/// Registering anything else keeps what stands under a key.
proof fn lemma_else(st: StV, name: Seq<char>, src: Seq<char>, x: Seq<char>)
    requires
        sound_pair(st, x),
        name != put_name(x),
        name != size_name(x),
    ensures
        sound_pair(ensure_spec(st, name, src), x),
{
}

proof fn lemma_arrays_kept(g: EnvV, st: StV, x: Seq<char>)
    requires
        is_key(x),
        sound_pair(st, x),
    ensures
        sound_pair(ensure_abi_arr_put_spec(g, st), x),
        sound_pair(ensure_abi_farr_put_spec(g, st), x),
{
    reveal(ensure_abi_arr_put_spec);
    reveal(ensure_abi_farr_put_spec);
    lemma_helper_keys(x, Seq::empty());
    lemma_names(x, "arr"@);
    lemma_names("arr"@, x);
    lemma_names(x, "farr"@);
    lemma_names("farr"@, x);
    lemma_else(st, "gum_abi_arr_put"@, gum_abi_arr_put_src(), x);
    lemma_else(
        ensure_spec(st, "gum_abi_arr_put"@, gum_abi_arr_put_src()),
        "gum_abi_arr_size"@,
        gum_abi_arr_size_src(),
        x,
    );
    lemma_else(st, "gum_abi_farr_put"@, gum_abi_farr_put_src(), x);
}

proof fn lemma_struct_kept(g: EnvV, st: StV, sn: Seq<char>, x: Seq<char>)
    requires
        is_key(x),
        sound_pair(st, x),
    ensures
        sound_pair(ensure_abi_struct_put_spec(g, st, sn).0, x),
{
    reveal(ensure_abi_struct_put_spec);
    lemma_helper_keys(x, sn);
    lemma_names(x, "st_"@ + sn);
    lemma_names("st_"@ + sn, x);
}

proof fn lemma_struct_arrays_kept(g: EnvV, st: StV, sn: Seq<char>, x: Seq<char>)
    requires
        is_key(x),
        sound_pair(st, x),
    ensures
        sound_pair(ensure_abi_struct_arr_put_spec(g, st, sn).0, x),
        ensure_abi_struct_arr_put_spec(g, st, sn).1 matches Some((p, s)) ==> p == put_name(
            "starr_"@ + sn,
        ) && s == size_name("starr_"@ + sn)
            && ensure_abi_struct_arr_put_spec(g, st, sn).0.thunks.contains_key(p)
            && ensure_abi_struct_arr_put_spec(g, st, sn).0.thunks.contains_key(s),
{
    reveal(ensure_abi_struct_arr_put_spec);
    lemma_struct_kept(g, st, sn, x);
    lemma_helper_keys(x, sn);
    let (st1, found) = ensure_abi_struct_put_spec(g, st, sn);
    match found {
        Some((st_fn, wire)) => {
            let packed = abi_struct_packed_spec(g, sn);
            let y = "starr_"@ + sn;
            lemma_struct_heads(put_name(y), st_fn, wire, packed);
            lemma_struct_heads(size_name(y), st_fn, wire, packed);
            lemma_pair(
                st1,
                y,
                abi_starr_put_src(put_name(y), st_fn, wire, packed),
                abi_starr_size_src(size_name(y), wire, packed),
                x,
            );
        },
        None => {},
    }
}

proof fn lemma_source_kept(
    g: EnvV,
    st: StV,
    t: TypeV,
    fname: Seq<char>,
    sname: Seq<char>,
    x: Seq<char>,
)
    requires
        is_key(x),
        sound_pair(st, x),
    ensures
        sound_pair(array_put_src_spec(g, st, t, fname, sname).0, x),
    decreases t, 0nat,
{
    reveal(array_put_src_spec);
    reveal(ensure_abi_put_spec);
    lemma_arrays_kept(g, st, x);
    match t {
        TypeV::Array(inner) => law_encoders_stay(g, st, *inner, x),
        TypeV::FixedArray(inner, _) => {
            law_encoders_stay(g, st, *inner, x);
            match abi_static_struct_spec(g, *inner) {
                Some(sn) => lemma_struct_kept(g, st, sn, x),
                None => {},
            }
        },
        _ => {},
    }
}

/// Whatever encoder is asked for, what stands under the key of an array or a text stays an
/// encoder with its size function.
pub proof fn law_encoders_stay(g: EnvV, st: StV, t: TypeV, x: Seq<char>)
    requires
        is_key(x),
        sound_pair(st, x),
    ensures
        sound_pair(ensure_abi_put_spec(g, st, t).0, x),
    decreases t, 1nat,
{
    reveal(ensure_abi_put_spec);
    reveal(array_put_src_spec);
    if str_type(t) {
        lemma_text_heads();
        lemma_helper_keys(x, Seq::empty());
        lemma_pair(st, "str"@, gum_abi_str_put_src(), gum_abi_str_size_src(), x);
    } else {
        match abi_struct_elem_spec(g, t) {
            Some(sn) => lemma_struct_arrays_kept(g, st, sn, x),
            None => {
                let y = mangle_spec(t);
                if !st.thunks.contains_key(put_name(y)) {
                    lemma_source_kept(g, st, t, put_name(y), size_name(y), x);
                    lemma_array_heads(g, st, t, put_name(y), size_name(y));
                    let (st1, found) = array_put_src_spec(g, st, t, put_name(y), size_name(y));
                    match found {
                        Some((psrc, ssrc)) => lemma_pair(st1, y, psrc, ssrc, x),
                        None => {},
                    }
                }
            },
        }
    }
}

/// A translator begins without helpers, so with nothing unsound under any key.
pub proof fn law_fresh_translator_is_sound(x: Seq<char>)
    ensures
        sound_pair(start_spec(), x),
{
}

/// Where an encoder is given, it and its size function are registered under the names
/// given, each with a text that declares it under that name; and asking again gives the
/// same names and changes nothing. What stood under the names before must have been an
/// encoder with its size function, and a type that is no array and no text must not share
/// its key with a helper.
pub proof fn law_encoders_come_in_pairs(g: EnvV, st: StV, t: TypeV)
    requires
        sound_pair(st, encoder_key(g, t)),
        t is Array || t is FixedArray || str_type(t) || !st.thunks.contains_key(
            put_name(mangle_spec(t)),
        ),
    ensures
        ({
            let (after, r) = ensure_abi_put_spec(g, st, t);
            r matches Some((put, size)) ==> {
                &&& after.thunks.contains_key(put)
                &&& begins(after.thunks[put], "function "@ + put + "(dst, ptr)"@)
                &&& after.thunks.contains_key(size)
                &&& begins(after.thunks[size], "function "@ + size + "(ptr)"@)
                &&& ensure_abi_put_spec(g, after, t) == (after, r)
            }
        }),
{
    reveal(ensure_abi_put_spec);
    reveal(ensure_abi_struct_arr_put_spec);
    reveal(ensure_abi_struct_put_spec);
    reveal(array_put_src_spec);
    if t is Array || t is FixedArray || str_type(t) {
        let x = encoder_key(g, t);
        lemma_is_key(g, t);
        law_encoders_stay(g, st, t, x);
        lemma_helper_keys(x, Seq::empty());
        match abi_struct_elem_spec(g, t) {
            Some(sn) => {
                lemma_helper_keys(x, sn);
                lemma_struct_arrays_kept(g, st, sn, x);
            },
            None => {},
        }
    }
}

/// Decoders have names of their own: asking for one leaves every encoder as it is.
pub proof fn law_decoders_leave_encoders(g: EnvV, st: StV, t: TypeV, x: Seq<char>)
    requires
        sound_pair(st, x),
    ensures
        sound_pair(ensure_abi_cd_spec(g, st, t).0, x),
        sound_pair(ensure_abi_mem_spec(g, st, t).0, x),
{
    lemma_cd_leaves(g, st, t, x);
    lemma_mem_leaves(g, st, t, x);
}

proof fn lemma_cd_end(a: Seq<char>, x: Seq<char>)
    ensures
        a + "_cd"@ != put_name(x),
        a + "_cd"@ != size_name(x),
        "gum_abi_str_cd"@ != put_name(x),
        "gum_abi_str_cd"@ != size_name(x),
        "gum_abi_arr_cd"@ != put_name(x),
        "gum_abi_arr_cd"@ != size_name(x),
        "gum_abi_farr_cd"@ != put_name(x),
        "gum_abi_farr_cd"@ != size_name(x),
{
    reveal_strlit("_cd");
    reveal_strlit("gum_abi_str_cd");
    reveal_strlit("gum_abi_arr_cd");
    reveal_strlit("gum_abi_farr_cd");
    assert((a + "_cd"@).last() == 'd');
    lemma_other_end(a + "_cd"@, x);
    lemma_other_end("gum_abi_str_cd"@, x);
    lemma_other_end("gum_abi_arr_cd"@, x);
    lemma_other_end("gum_abi_farr_cd"@, x);
}

proof fn lemma_struct_cd_leaves(g: EnvV, st: StV, sn: Seq<char>, x: Seq<char>)
    requires
        sound_pair(st, x),
    ensures
        sound_pair(ensure_abi_struct_cd_spec(g, st, sn).0, x),
        sound_pair(ensure_abi_struct_arr_cd_spec(g, st, sn).0, x),
{
    reveal(ensure_abi_struct_cd_spec);
    reveal(ensure_abi_struct_arr_cd_spec);
    lemma_cd_end("gum_abi_st_"@ + sn, x);
    lemma_cd_end("gum_abi_starr_"@ + sn, x);
}

proof fn lemma_cd_source_leaves(g: EnvV, st: StV, t: TypeV, fname: Seq<char>, x: Seq<char>)
    requires
        sound_pair(st, x),
    ensures
        sound_pair(array_cd_src_spec(g, st, t, fname).0, x),
    decreases t, 0nat,
{
    reveal(array_cd_src_spec);
    reveal(ensure_abi_cd_spec);
    reveal(ensure_abi_arr_cd_spec);
    reveal(ensure_abi_farr_cd_spec);
    lemma_cd_end(Seq::empty(), x);
    match t {
        TypeV::Array(inner) => lemma_cd_leaves(g, st, *inner, x),
        TypeV::FixedArray(inner, _) => {
            lemma_cd_leaves(g, st, *inner, x);
            match abi_static_struct_spec(g, *inner) {
                Some(sn) => lemma_struct_cd_leaves(g, st, sn, x),
                None => {},
            }
        },
        _ => {},
    }
}

proof fn lemma_cd_leaves(g: EnvV, st: StV, t: TypeV, x: Seq<char>)
    requires
        sound_pair(st, x),
    ensures
        sound_pair(ensure_abi_cd_spec(g, st, t).0, x),
    decreases t, 1nat,
{
    reveal(ensure_abi_cd_spec);
    reveal(array_cd_src_spec);
    lemma_cd_end("gum_abi_"@ + mangle_spec(t), x);
    if !str_type(t) {
        match abi_struct_elem_spec(g, t) {
            Some(sn) => lemma_struct_cd_leaves(g, st, sn, x),
            None => lemma_cd_source_leaves(
                g,
                st,
                t,
                "gum_abi_"@ + mangle_spec(t) + "_cd"@,
                x,
            ),
        }
    }
}

proof fn lemma_mem_end(a: Seq<char>, x: Seq<char>)
    ensures
        a + "_mem"@ != put_name(x),
        a + "_mem"@ != size_name(x),
        "gum_abi_str_mem"@ != put_name(x),
        "gum_abi_str_mem"@ != size_name(x),
        "gum_abi_arr_mem"@ != put_name(x),
        "gum_abi_arr_mem"@ != size_name(x),
        "gum_abi_farr_mem"@ != put_name(x),
        "gum_abi_farr_mem"@ != size_name(x),
{
    reveal_strlit("_mem");
    reveal_strlit("gum_abi_str_mem");
    reveal_strlit("gum_abi_arr_mem");
    reveal_strlit("gum_abi_farr_mem");
    assert((a + "_mem"@).last() == 'm');
    lemma_other_end(a + "_mem"@, x);
    lemma_other_end("gum_abi_str_mem"@, x);
    lemma_other_end("gum_abi_arr_mem"@, x);
    lemma_other_end("gum_abi_farr_mem"@, x);
}

proof fn lemma_struct_mem_leaves(g: EnvV, st: StV, sn: Seq<char>, x: Seq<char>)
    requires
        sound_pair(st, x),
    ensures
        sound_pair(ensure_abi_struct_mem_spec(g, st, sn).0, x),
        sound_pair(ensure_abi_struct_arr_mem_spec(g, st, sn).0, x),
{
    reveal(ensure_abi_struct_mem_spec);
    reveal(ensure_abi_struct_arr_mem_spec);
    lemma_mem_end("gum_abi_st_"@ + sn, x);
    lemma_mem_end("gum_abi_starr_"@ + sn, x);
}

proof fn lemma_mem_source_leaves(g: EnvV, st: StV, t: TypeV, fname: Seq<char>, x: Seq<char>)
    requires
        sound_pair(st, x),
    ensures
        sound_pair(array_mem_src_spec(g, st, t, fname).0, x),
    decreases t, 0nat,
{
    reveal(array_mem_src_spec);
    reveal(ensure_abi_mem_spec);
    reveal(ensure_abi_arr_mem_spec);
    reveal(ensure_abi_farr_mem_spec);
    lemma_mem_end(Seq::empty(), x);
    match t {
        TypeV::Array(inner) => lemma_mem_leaves(g, st, *inner, x),
        TypeV::FixedArray(inner, _) => {
            lemma_mem_leaves(g, st, *inner, x);
            match abi_static_struct_spec(g, *inner) {
                Some(sn) => lemma_struct_mem_leaves(g, st, sn, x),
                None => {},
            }
        },
        _ => {},
    }
}

proof fn lemma_mem_leaves(g: EnvV, st: StV, t: TypeV, x: Seq<char>)
    requires
        sound_pair(st, x),
    ensures
        sound_pair(ensure_abi_mem_spec(g, st, t).0, x),
    decreases t, 1nat,
{
    reveal(ensure_abi_mem_spec);
    reveal(array_mem_src_spec);
    lemma_mem_end("gum_abi_"@ + mangle_spec(t), x);
    if !str_type(t) {
        match abi_struct_elem_spec(g, t) {
            Some(sn) => lemma_struct_mem_leaves(g, st, sn, x),
            None => lemma_mem_source_leaves(
                g,
                st,
                t,
                "gum_abi_"@ + mangle_spec(t) + "_mem"@,
                x,
            ),
        }
    }
}

} // verus!
