//! The standard library that every program can import from, and how an import path
//! names a module and a symbol in it.
use crate::codegen::yul::opt_text;
use crate::text::{
    begins, chars_of, lower, lower_spec, rfind_char, rfind_spec, same, slice_text, starts_with,
};
use vstd::prelude::*;

verus! {

/// The one module: the classes that stand for what the machine knows, and the names
/// that built-in behaviour goes by.
pub const DEFAULTS: &'static str = "class Account:
    u256 word

class Message:
    Account sender
    u256 value

    fn sender() -> Account
    fn value() -> u256

class Block:
    u256 timestamp
    u256 number

    fn timestamp() -> u256
    fn number() -> u256

class String:
    u256 length

class Bytes:
    u256 length

class Crypto:
    u256 word

class Vec(All T):
    u256 length

class Hashable:
    u256 word

class Serializable:
    u256 word
";

/// Whether a path goes to the standard library.
pub fn is_std_path(path: &str) -> (r: bool)
    ensures
        r == begins(path@, "gum."@),
{
    starts_with(path, "gum.")
}

/// The source of a module; case does not matter in its name.
pub open spec fn source_of(module: Seq<char>) -> Option<Seq<char>> {
    if lower_spec(module) == "gum.defaults"@ {
        Some(DEFAULTS@)
    } else {
        None
    }
}

pub fn lookup(module: &str) -> (r: Option<&'static str>)
    ensures
        source_of(module@) == (match r {
            Some(s) => Some(s@),
            None => None,
        }),
{
    if same(lower(module).as_str(), "gum.defaults") {
        Some(DEFAULTS)
    } else {
        None
    }
}

/// A path cut at its last dot.
pub open spec fn last_dot(path: Seq<char>) -> Option<(Seq<char>, Seq<char>)> {
    match rfind_spec(path, '.') {
        Some(i) => Some((path.subrange(0, i), path.subrange(i + 1, path.len() as int))),
        None => None,
    }
}

pub fn cut_last_dot(path: &str) -> (r: Option<(String, String)>)
    ensures
        last_dot(path@) == (match r {
            Some(p) => Some((p.0@, p.1@)),
            None => None,
        }),
{
    let v = chars_of(path);
    match rfind_char(&v, '.') {
        Some(i) => Some((slice_text(&v, 0, i), slice_text(&v, i + 1, v.len()))),
        None => None,
    }
}

/// The module that a path names, and the symbol wanted out of it: the whole path
/// where it is a module, else what stands before and after the last dot.
pub open spec fn split_spec(path: Seq<char>) -> Option<(Seq<char>, Option<Seq<char>>)> {
    if source_of(path) is Some {
        Some((path, None))
    } else {
        match last_dot(path) {
            Some((head, sym)) => if source_of(head) is Some {
                Some((head, Some(sym)))
            } else {
                None
            },
            None => None,
        }
    }
}

pub open spec fn split_v(r: Option<(String, Option<String>)>) -> Option<
    (Seq<char>, Option<Seq<char>>),
> {
    match r {
        Some((m, s)) => Some((m@, opt_text(s))),
        None => None,
    }
}

pub fn split_module(path: &str) -> (r: Option<(String, Option<String>)>)
    ensures
        split_v(r) == split_spec(path@),
{
    if lookup(path).is_some() {
        return Some((String::from_str(path), None));
    }
    match cut_last_dot(path) {
        Some((head, sym)) => {
            if lookup(head.as_str()).is_some() {
                Some((head, Some(sym)))
            } else {
                None
            }
        },
        None => None,
    }
}

/// The names of the modules, in order.
pub fn known_modules() -> (r: Vec<&'static str>)
    ensures
        r@ == seq!["gum.defaults"],
{
    let mut out: Vec<&'static str> = Vec::new();
    out.push("gum.defaults");
    assert(out@ =~= seq!["gum.defaults"]);
    out
}

/// A path that splits puts its parts back together, and its module can be looked up.
pub proof fn law_split_names_a_module(path: Seq<char>)
    ensures
        split_spec(path) matches Some((m, s)) ==> source_of(m) is Some && path == (match s {
            Some(s) => m + seq!['.'] + s,
            None => m,
        }),
{
    match rfind_spec(path, '.') {
        Some(i) => {
            crate::text::lemma_rfind(path, path.len() as int, '.');
            assert(path =~= path.subrange(0, i) + seq!['.'] + path.subrange(
                i + 1,
                path.len() as int,
            ));
        },
        None => {},
    }
}

} // verus!
