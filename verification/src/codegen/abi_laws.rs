//! What holds of every type across the ABI: classes are opened all the way down, and a
//! type is spelled, taken apart and sized by its parts.
use crate::ast::{FieldV, TypeV};
use crate::codegen::abi::{
    depth, field_parts, map_type_spec, parts_spec, parts_within, plain_spec, sig_fields, sig_spec,
    sig_within, InputV,
};
use crate::codegen::tr_codec::{abi_dynamic, dyn_fields_within, dyn_within};
use crate::codegen::yul::struct_type;
use crate::semantic::WorldV;
use crate::text::join_spec;
use vstd::prelude::*;

verus! {

/// The class that a type holds by value: itself, or what its arrays hold. An array
/// without a fixed length counts where `lists` says so.
pub open spec fn held(t: TypeV, lists: bool) -> Option<Seq<char>>
    decreases t,
{
    match t {
        TypeV::Primitive(n) => Some(n),
        TypeV::FixedArray(inner, _) => held(*inner, lists),
        TypeV::Array(inner) => if lists {
            held(*inner, lists)
        } else {
            None
        },
        TypeV::Generic { .. } => None,
    }
}

/// Whether a field of one class holds another class.
pub open spec fn has_part(w: WorldV, a: Seq<char>, b: Seq<char>, lists: bool) -> bool {
    exists|i: int|
        0 <= i < w.classes[a].fields.len() && held(
            (#[trigger] w.classes[a].fields[i]).type_def,
            lists,
        ) == Some(b)
}

/// Whether each class of a row holds the next one.
pub open spec fn nested(w: WorldV, s: Seq<Seq<char>>, lists: bool) -> bool {
    &&& forall|i: int| 0 <= i < s.len() ==> w.classes.contains_key(#[trigger] s[i])
    &&& forall|i: int, j: int|
        0 <= i && j == i + 1 && j < s.len() ==> has_part(
            w,
            #[trigger] s[i],
            #[trigger] s[j],
            lists,
        )
}

/// No class holds itself, directly or through other classes.
pub open spec fn well_founded(w: WorldV, lists: bool) -> bool {
    w.classes.dom().finite() && forall|s: Seq<Seq<char>>|
        #[trigger] nested(w, s, lists) && s.len() > 1 ==> s.first() != s.last()
}

proof fn lemma_row_fits(w: WorldV, s: Seq<Seq<char>>, lists: bool)
    requires
        well_founded(w, lists),
        nested(w, s, lists),
    ensures
        s.len() <= depth(w),
{
    assert(s.no_duplicates()) by {
        assert forall|i: int, j: int| 0 <= i < s.len() && 0 <= j < s.len() && i != j implies s[i]
            != s[j] by {
            let a = if i < j {
                i
            } else {
                j
            };
            let b = if i < j {
                j
            } else {
                i
            };
            let r = s.subrange(a, b + 1);
            assert forall|x: int, y: int| 0 <= x && y == x + 1 && y < r.len() implies has_part(
                w,
                #[trigger] r[x],
                #[trigger] r[y],
                lists,
            ) by {
                assert(has_part(w, s[a + x], s[a + y], lists));
            }
            assert(nested(w, r, lists));
            assert(r.first() == s[a] && r.last() == s[b]);
        }
    }
    s.unique_seq_to_set();
    assert(s.to_set().subset_of(w.classes.dom()));
    vstd::set_lib::lemma_len_subset(s.to_set(), w.classes.dom());
}

proof fn lemma_row_grows(w: WorldV, s: Seq<Seq<char>>, n: Seq<char>, lists: bool)
    requires
        nested(w, s, lists),
        s.len() > 0 ==> has_part(w, s.last(), n, lists),
        w.classes.contains_key(n),
    ensures
        nested(w, s.push(n), lists),
{
    let r = s.push(n);
    assert forall|x: int, y: int| 0 <= x && y == x + 1 && y < r.len() implies has_part(
        w,
        #[trigger] r[x],
        #[trigger] r[y],
        lists,
    ) by {
        if y < s.len() {
            assert(has_part(w, s[x], s[y], lists));
        }
    }
}

/// Whether a type can stand in a row: the last class of the row holds what it holds.
spec fn follows(w: WorldV, s: Seq<Seq<char>>, t: TypeV, lists: bool) -> bool {
    s.len() > 0 ==> (held(t, lists) matches Some(n) ==> has_part(w, s.last(), n, lists))
}

/// Only a class is spelled as a tuple.
proof fn lemma_tuple(w: WorldV, n: Seq<char>)
    requires
        map_type_spec(w, TypeV::Primitive(n)) == "tuple"@,
    ensures
        w.classes.contains_key(n),
{
    reveal_strlit("tuple");
    reveal_strlit("uint");
    reveal_strlit("int");
    reveal_strlit("address");
    reveal_strlit("bool");
    reveal_strlit("int256");
    reveal_strlit("Message");
    reveal_strlit("Block");
    reveal_strlit("string");
    reveal_strlit("bytes");
    reveal_strlit("uint8");
    reveal_strlit("uint256");
    let m = map_type_spec(w, TypeV::Primitive(n));
    assert(m[0] == 't');
}

proof fn lemma_sig(w: WorldV, s: Seq<Seq<char>>, t: TypeV, d: nat)
    requires
        well_founded(w, true),
        nested(w, s, true),
        follows(w, s, t, true),
        d + s.len() >= depth(w),
    ensures
        sig_within(w, t, d + 1) == sig_within(w, t, d),
    decreases d, 0nat, t,
{
    match t {
        TypeV::Array(inner) => lemma_sig(w, s, *inner, d),
        TypeV::FixedArray(inner, _) => lemma_sig(w, s, *inner, d),
        TypeV::Primitive(n) => {
            if map_type_spec(w, t) == "tuple"@ {
                lemma_tuple(w, n);
                lemma_row_grows(w, s, n, true);
                lemma_row_fits(w, s.push(n), true);
                let fs = w.classes[n].fields;
                lemma_sig_fields(w, s.push(n), fs, fs.len(), (d - 1) as nat);
            }
        },
        TypeV::Generic { .. } => {},
    }
}

proof fn lemma_sig_fields(w: WorldV, s: Seq<Seq<char>>, fs: Seq<FieldV>, n: nat, d: nat)
    requires
        well_founded(w, true),
        nested(w, s, true),
        s.len() > 0,
        fs == w.classes[s.last()].fields,
        n <= fs.len(),
        d + s.len() >= depth(w),
    ensures
        sig_fields(w, fs, n, d + 1) == sig_fields(w, fs, n, d),
    decreases d, n + 1, fs,
{
    if n > 0 {
        lemma_sig_fields(w, s, fs, (n - 1) as nat, d);
        assert(w.classes[s.last()].fields[n - 1] == fs[n - 1]);
        lemma_sig(w, s, fs[n - 1].type_def, d);
    }
}

proof fn lemma_parts(w: WorldV, s: Seq<Seq<char>>, t: TypeV, d: nat)
    requires
        well_founded(w, true),
        nested(w, s, true),
        follows(w, s, t, true),
        d + s.len() >= depth(w),
    ensures
        parts_within(w, t, d + 1) == parts_within(w, t, d),
    decreases d, 0nat, t,
{
    match t {
        TypeV::Array(inner) => lemma_parts(w, s, *inner, d),
        TypeV::FixedArray(inner, _) => lemma_parts(w, s, *inner, d),
        TypeV::Primitive(n) => {
            if n != "String"@ && n != "Bytes"@ && w.classes.contains_key(n) {
                lemma_row_grows(w, s, n, true);
                lemma_row_fits(w, s.push(n), true);
                let fs = w.classes[n].fields;
                lemma_part_fields(w, s.push(n), fs, fs.len(), (d - 1) as nat);
            }
        },
        TypeV::Generic { .. } => {},
    }
}

proof fn lemma_part_fields(w: WorldV, s: Seq<Seq<char>>, fs: Seq<FieldV>, n: nat, d: nat)
    requires
        well_founded(w, true),
        nested(w, s, true),
        s.len() > 0,
        fs == w.classes[s.last()].fields,
        n <= fs.len(),
        d + s.len() >= depth(w),
    ensures
        field_parts(w, fs, n, d + 1) == field_parts(w, fs, n, d),
    decreases d, n + 1, fs,
{
    if n > 0 {
        lemma_part_fields(w, s, fs, (n - 1) as nat, d);
        assert(w.classes[s.last()].fields[n - 1] == fs[n - 1]);
        lemma_parts(w, s, fs[n - 1].type_def, d);
    }
}

proof fn lemma_dyn(w: WorldV, s: Seq<Seq<char>>, t: TypeV, d: nat)
    requires
        well_founded(w, false),
        nested(w, s, false),
        follows(w, s, t, false),
        d + s.len() >= depth(w),
    ensures
        dyn_within(w, t, d + 1) == dyn_within(w, t, d),
    decreases d, 0nat, t,
{
    match t {
        TypeV::Array(_) => {},
        TypeV::FixedArray(inner, _) => lemma_dyn(w, s, *inner, d),
        TypeV::Primitive(n) => {
            if struct_type(w, t) {
                lemma_row_grows(w, s, n, false);
                lemma_row_fits(w, s.push(n), false);
                let fs = w.classes[n].fields;
                lemma_dyn_fields(w, s.push(n), fs, fs.len(), (d - 1) as nat);
            }
        },
        TypeV::Generic { .. } => {},
    }
}

proof fn lemma_dyn_fields(w: WorldV, s: Seq<Seq<char>>, fs: Seq<FieldV>, n: nat, d: nat)
    requires
        well_founded(w, false),
        nested(w, s, false),
        s.len() > 0,
        fs == w.classes[s.last()].fields,
        n <= fs.len(),
        d + s.len() >= depth(w),
    ensures
        dyn_fields_within(w, fs, n, d + 1) == dyn_fields_within(w, fs, n, d),
    decreases d, n + 1, fs,
{
    if n > 0 {
        lemma_dyn_fields(w, s, fs, (n - 1) as nat, d);
        assert(w.classes[s.last()].fields[n - 1] == fs[n - 1]);
        lemma_dyn(w, s, fs[n - 1].type_def, d);
    }
}

/// Classes are opened deep enough: one more level changes neither how a type is spelled,
/// nor its components, nor whether it is dynamic.
pub proof fn law_depth_is_enough(w: WorldV, t: TypeV)
    ensures
        well_founded(w, true) ==> sig_within(w, t, depth(w) + 1) == sig_spec(w, t),
        well_founded(w, true) ==> parts_within(w, t, depth(w) + 1) == parts_spec(w, t),
        well_founded(w, false) ==> dyn_within(w, t, depth(w) + 1) == abi_dynamic(w, t),
{
    let s = Seq::<Seq<char>>::empty();
    if well_founded(w, true) {
        lemma_sig(w, s, t, depth(w));
        lemma_parts(w, s, t, depth(w));
    }
    if well_founded(w, false) {
        lemma_dyn(w, s, t, depth(w));
    }
}

proof fn lemma_sig_list(w: WorldV, fs: Seq<FieldV>, n: nat, d: nat)
    requires
        n <= fs.len(),
    ensures
        sig_fields(w, fs, n, d) == Seq::new(n, |i: int| sig_within(w, fs[i].type_def, d)),
    decreases n,
{
    if n > 0 {
        lemma_sig_list(w, fs, (n - 1) as nat, d);
    }
    assert(sig_fields(w, fs, n, d) =~= Seq::new(n, |i: int| sig_within(w, fs[i].type_def, d)));
}

/// A signature spells a class as the tuple of its fields, each as it is spelled itself.
pub proof fn law_class_is_its_fields(w: WorldV, n: Seq<char>)
    requires
        well_founded(w, true),
        map_type_spec(w, TypeV::Primitive(n)) == "tuple"@,
    ensures
        sig_spec(w, TypeV::Primitive(n)) == "("@ + join_spec(
            Seq::new(
                w.classes[n].fields.len(),
                |i: int| sig_spec(w, w.classes[n].fields[i].type_def),
            ),
            ","@,
        ) + ")"@,
{
    let fs = w.classes[n].fields;
    let d = depth(w);
    law_depth_is_enough(w, TypeV::Primitive(n));
    lemma_sig_list(w, fs, fs.len(), d);
    assert(sig_fields(w, fs, fs.len(), d) =~= Seq::new(
        fs.len(),
        |i: int| sig_spec(w, fs[i].type_def),
    ));
}

proof fn lemma_part_list(w: WorldV, fs: Seq<FieldV>, n: nat, d: nat)
    requires
        n <= fs.len(),
    ensures
        field_parts(w, fs, n, d).len() == n,
        forall|i: int|
            0 <= i < n ==> #[trigger] field_parts(w, fs, n, d)[i] == plain_spec(
                fs[i].name,
                map_type_spec(w, fs[i].type_def),
                parts_within(w, fs[i].type_def, d),
            ),
    decreases n,
{
    if n > 0 {
        lemma_part_list(w, fs, (n - 1) as nat, d);
        let a = field_parts(w, fs, (n - 1) as nat, d);
        let b = field_parts(w, fs, n, d);
        assert forall|i: int| 0 <= i < n implies #[trigger] b[i] == plain_spec(
            fs[i].name,
            map_type_spec(w, fs[i].type_def),
            parts_within(w, fs[i].type_def, d),
        ) by {
            if i < n - 1 {
                assert(b[i] == a[i]);
            }
        }
    }
}

/// The components of a class are its fields, in the order of their declaration, each with
/// its own type and components; those of an array are those of what it holds.
pub proof fn law_components_are_fields(w: WorldV, t: TypeV, k: usize)
    ensures
        parts_spec(w, TypeV::Array(Box::new(t))) == parts_spec(w, t),
        parts_spec(w, TypeV::FixedArray(Box::new(t), k)) == parts_spec(w, t),
        well_founded(w, true) ==> (t matches TypeV::Primitive(n) ==> (n != "String"@ && n
            != "Bytes"@ && w.classes.contains_key(n) ==> {
            let fs = w.classes[n].fields;
            let parts: Seq<InputV> = parts_spec(w, t);
            parts.len() == fs.len() && forall|i: int|
                0 <= i < fs.len() ==> #[trigger] parts[i] == plain_spec(
                    fs[i].name,
                    map_type_spec(w, fs[i].type_def),
                    parts_spec(w, fs[i].type_def),
                )
        })),
{
    if well_founded(w, true) {
        match t {
            TypeV::Primitive(n) => {
                if n != "String"@ && n != "Bytes"@ && w.classes.contains_key(n) {
                    let fs = w.classes[n].fields;
                    law_depth_is_enough(w, t);
                    lemma_part_list(w, fs, fs.len(), depth(w));
                }
            },
            _ => {},
        }
    }
}

proof fn lemma_dyn_some(w: WorldV, fs: Seq<FieldV>, n: nat, d: nat)
    requires
        n <= fs.len(),
    ensures
        dyn_fields_within(w, fs, n, d) <==> exists|i: int|
            0 <= i < n && dyn_within(w, (#[trigger] fs[i]).type_def, d),
    decreases n,
{
    if n > 0 {
        lemma_dyn_some(w, fs, (n - 1) as nat, d);
        if dyn_within(w, fs[n - 1].type_def, d) {
            assert(0 <= n - 1 < n && dyn_within(w, fs[n - 1].type_def, d));
        }
    }
}

/// A list and a text are dynamic; a fixed array is where its elements are; a struct is
/// where one of its fields is; nothing else is.
pub proof fn law_dynamic_types(w: WorldV, t: TypeV, k: usize)
    ensures
        abi_dynamic(w, TypeV::Array(Box::new(t))),
        abi_dynamic(w, TypeV::FixedArray(Box::new(t), k)) == abi_dynamic(w, t),
        abi_dynamic(w, TypeV::Primitive("String"@)),
        abi_dynamic(w, TypeV::Primitive("Bytes"@)),
        t matches TypeV::Primitive(n) ==> (n != "String"@ && n != "Bytes"@ && !struct_type(w, t)
            ==> !abi_dynamic(w, t)),
        t is Generic ==> !abi_dynamic(w, t),
        well_founded(w, false) ==> (t matches TypeV::Primitive(n) ==> (struct_type(w, t) ==> (
        abi_dynamic(w, t) <==> exists|i: int|
            0 <= i < w.classes[n].fields.len() && abi_dynamic(
                w,
                (#[trigger] w.classes[n].fields[i]).type_def,
            )))),
{
    if well_founded(w, false) {
        match t {
            TypeV::Primitive(n) => {
                if struct_type(w, t) {
                    let fs = w.classes[n].fields;
                    law_depth_is_enough(w, t);
                    lemma_dyn_some(w, fs, fs.len(), depth(w));
                }
            },
            _ => {},
        }
    }
}

} // verus!
