//! What is decided around a run of a contract's tests: how a test is called, what a
//! cheatcode does, and what a result says.
use crate::ast::{ClassDecl, FnV};
use crate::codegen::yul::{keccak, keccak256, opt_text};
use crate::text::{
    cat2, cat3, cat4, cat6, dec, dec_text, has_text, hex_byte, hex_spec, hex_text, texts,
};
use vstd::utf8::{decode_utf8, encode_utf8, valid_utf8};
use vstd::prelude::*;

verus! {

broadcast use crate::ast::group_views;

/// What `String::from_utf8_lossy` makes of bytes.
pub uninterp spec fn lossy_text(data: Seq<u8>) -> Seq<char>;

/// `String::from_utf8_lossy`: bytes that are valid UTF-8 give the text they encode. What
/// other bytes give depends on them alone; it is left unsaid.
#[verifier::external_body]
fn utf8_lossy(data: &[u8]) -> (r: String)
    ensures
        r@ == lossy_text(data@),
        valid_utf8(data@) ==> r@ == decode_utf8(data@),
{
    String::from_utf8_lossy(data).into_owned()
}

/// The number that eight bytes stand for, the highest first.
pub open spec fn be_value(s: Seq<u8>) -> int {
    ((((((s[0] * 256 + s[1]) * 256 + s[2]) * 256 + s[3]) * 256 + s[4]) * 256 + s[5]) * 256 + s[6])
        * 256 + s[7]
}

/// Whether bytes start with the four of a selector.
pub open spec fn selects(data: Seq<u8>, a: u8, b: u8, c: u8, d: u8) -> bool {
    data.len() >= 4 && data[0] == a && data[1] == b && data[2] == c && data[3] == d
}

fn has_selector(data: &[u8], a: u8, b: u8, c: u8, d: u8) -> (r: bool)
    ensures
        r == selects(data@, a, b, c, d),
{
    data.len() >= 4 && data[0] == a && data[1] == b && data[2] == c && data[3] == d
}

/// The bytes of the message of an `Error(string)`: selector, offset, length, bytes.
pub open spec fn message_of(out: Seq<u8>) -> Option<Seq<u8>> {
    if out.len() >= 68 && selects(out, 0x08, 0xc3, 0x79, 0xa0) {
        let n = be_value(out.subrange(60, 68));
        if n <= out.len() - 68 {
            Some(out.subrange(68, 68 + n))
        } else {
            None
        }
    } else {
        None
    }
}

fn copy_bytes(data: &[u8], from: usize, to: usize) -> (r: Vec<u8>)
    requires
        from <= to <= data@.len(),
    ensures
        r@ == data@.subrange(from as int, to as int),
{
    let mut out: Vec<u8> = Vec::new();
    let mut i: usize = from;
    while i < to
        invariant
            from <= i <= to <= data@.len(),
            out@ == data@.subrange(from as int, i as int),
        decreases to - i,
    {
        out.push(data[i]);
        i += 1;
        assert(out@ =~= data@.subrange(from as int, i as int));
    }
    out
}

fn message(out: &[u8]) -> (r: Option<Vec<u8>>)
    ensures
        message_of(out@) == (match r {
            Some(v) => Some(v@),
            None => None,
        }),
{
    let len = out.len();
    if len >= 68 && has_selector(out, 0x08, 0xc3, 0x79, 0xa0) {
        let n: u128 = ((((((out[60] as u128 * 256 + out[61] as u128) * 256 + out[62] as u128) * 256
            + out[63] as u128) * 256 + out[64] as u128) * 256 + out[65] as u128) * 256
            + out[66] as u128) * 256 + out[67] as u128;
        assert(n == be_value(out@.subrange(60, 68)));
        if n <= (len - 68) as u128 {
            let end: usize = 68 + n as usize;
            return Some(copy_bytes(out, 68, end));
        }
    }
    None
}

/// What a person reads of revert data: the message of an assert, which has been decoded
/// to `text`, the code of a panic, or the selector of a custom error.
pub open spec fn reason_spec(out: Seq<u8>, text: Seq<char>) -> Seq<char> {
    if out.len() == 0 {
        "reverted with no reason"@
    } else if message_of(out) is Some {
        "\""@ + text + "\""@
    } else if out.len() >= 36 && selects(out, 0x4e, 0x48, 0x7b, 0x71) {
        "Panic(0x"@ + hex_byte(out[35]) + ")"@
    } else {
        "reverted with custom error 0x"@ + hex_spec(
            out.take(
                if out.len() < 4 {
                    out.len() as int
                } else {
                    4
                },
            ),
        )
    }
}

pub fn revert_reason(out: &[u8], text: &str) -> (r: String)
    ensures
        r@ == reason_spec(out@, text@),
{
    if out.len() == 0 {
        return String::from_str("reverted with no reason");
    }
    if message(out).is_some() {
        return cat3("\"", text, "\"");
    }
    if out.len() >= 36 && has_selector(out, 0x4e, 0x48, 0x7b, 0x71) {
        let code = copy_bytes(out, 35, 36);
        proof {
            assert(code@ =~= seq![out@[35]]);
            reveal_with_fuel(hex_spec, 2);
            assert(code@.drop_last() =~= Seq::<u8>::empty());
            assert(hex_spec(code@) =~= hex_byte(out@[35]));
        }
        return cat3("Panic(0x", hex_text(code.as_slice()).as_str(), ")");
    }
    let n: usize = if out.len() < 4 {
        out.len()
    } else {
        4
    };
    let head = copy_bytes(out, 0, n);
    assert(head@ =~= out@.take(n as int));
    cat2("reverted with custom error 0x", hex_text(head.as_slice()).as_str())
}

/// The reason in revert data, as a person reads it.
pub open spec fn decoded(out: Seq<u8>) -> Seq<char> {
    reason_spec(
        out,
        match message_of(out) {
            Some(m) => lossy_text(m),
            None => Seq::empty(),
        },
    )
}

pub fn decode_revert(out: &[u8]) -> (r: String)
    ensures
        r@ == decoded(out@),
{
    match message(out) {
        Some(m) => {
            let text = utf8_lossy(m.as_slice());
            revert_reason(out, text.as_str())
        },
        None => {
            let s = String::new();
            assert(s@ =~= Seq::<char>::empty());
            revert_reason(out, s.as_str())
        },
    }
}

/// How one test went.
#[derive(Debug, PartialEq)]
pub struct TestOutcome {
    pub name: String,
    pub passed: bool,
    /// Why it did not pass.
    pub reason: Option<String>,
}

/// A test passes if its call returns; else what it gave back says why.
pub fn outcome(name: &str, passed: bool, ret: &[u8]) -> (r: TestOutcome)
    ensures
        r.name@ == name@,
        r.passed == passed,
        opt_text(r.reason) == (if passed {
            None
        } else {
            Some(decoded(ret@))
        }),
{
    TestOutcome {
        name: String::from_str(name),
        passed,
        reason: if passed {
            None
        } else {
            Some(decode_revert(ret))
        },
    }
}

/// What a test is called with: the selector of its name without arguments.
pub open spec fn call_spec(name: Seq<char>) -> Seq<u8> {
    keccak256(encode_utf8(name + "()"@)).take(4)
}

pub fn test_call(name: &str) -> (r: Vec<u8>)
    ensures
        r@ == call_spec(name@),
{
    let sig = cat2(name, "()");
    let h = keccak(sig.as_str().as_bytes());
    let v = copy_bytes(&h, 0, 4);
    assert(v@ =~= h@.take(4));
    v
}

/// The tests among the first `n` methods.
pub open spec fn tests_of(ms: Seq<FnV>, n: nat) -> Seq<Seq<char>>
    decreases n,
{
    if n == 0 {
        Seq::empty()
    } else {
        let out = tests_of(ms, (n - 1) as nat);
        if ms[n - 1].attributes.contains("Test"@) {
            out.push(ms[n - 1].name)
        } else {
            out
        }
    }
}

/// The functions of a contract that are marked as tests.
pub fn test_names(c: &ClassDecl) -> (r: Vec<String>)
    ensures
        texts(r@) == tests_of(c@.methods, c@.methods.len()),
{
    let mut out: Vec<String> = Vec::new();
    let mut i: usize = 0;
    assert(texts(out@) =~= Seq::<Seq<char>>::empty());
    while i < c.methods.len()
        invariant
            i <= c.methods@.len(),
            texts(out@) == tests_of(c@.methods, i as nat),
        decreases c.methods@.len() - i,
    {
        let f = &c.methods[i];
        assert(c@.methods[i as int] == f@);
        if has_text(&f.attributes, "Test") {
            let ghost before = texts(out@);
            out.push(f.name.clone());
            assert(texts(out@) =~= before.push(f.name@));
        }
        i += 1;
    }
    out
}

/// The address that cheatcodes are called at.
pub open spec fn vm_address() -> Seq<u8> {
    seq![
        0x71u8,
        0x09u8,
        0x70u8,
        0x9eu8,
        0xcfu8,
        0xa9u8,
        0x1au8,
        0x80u8,
        0x62u8,
        0x6fu8,
        0xf3u8,
        0x98u8,
        0x9du8,
        0x68u8,
        0xf6u8,
        0x7fu8,
        0x5bu8,
        0x1du8,
        0xd1u8,
        0x2du8,
    ]
}

fn vm_bytes() -> (r: [u8; 20])
    ensures
        r@ == vm_address(),
{
    let a: [u8; 20] = [
        0x71,
        0x09,
        0x70,
        0x9e,
        0xcf,
        0xa9,
        0x1a,
        0x80,
        0x62,
        0x6f,
        0xf3,
        0x98,
        0x9d,
        0x68,
        0xf6,
        0x7f,
        0x5b,
        0x1d,
        0xd1,
        0x2d,
    ];
    assert(a@ =~= vm_address());
    a
}

/// Who the calls come from, where a cheatcode has said so.
pub struct Cheats {
    pub sender: Option<Vec<u8>>,
}

/// What is to be done with a call.
#[derive(Debug, PartialEq)]
pub enum CallAction {
    /// It is a cheatcode: it succeeds at once and returns nothing.
    Swallow,
    /// It is made as from this address.
    From(Vec<u8>),
    /// It is made as it is.
    AsIs,
}

pub enum ActionV {
    Swallow,
    From(Seq<u8>),
    AsIs,
}

impl CallAction {
    pub open spec fn view(&self) -> ActionV {
        match self {
            CallAction::Swallow => ActionV::Swallow,
            CallAction::From(a) => ActionV::From(a@),
            CallAction::AsIs => ActionV::AsIs,
        }
    }
}

pub open spec fn bytes_v(o: Option<Vec<u8>>) -> Option<Seq<u8>> {
    match o {
        Some(v) => Some(v@),
        None => None,
    }
}

/// The sender that `startPrank(address)` names: the low twenty bytes of its argument.
pub open spec fn named_sender(data: Seq<u8>) -> Option<Seq<u8>> {
    if data.len() >= 36 && selects(data, 0x06, 0x44, 0x7d, 0x56) {
        Some(data.subrange(16, 36))
    } else {
        None
    }
}

/// The sender after a call, and what is to be done with the call. A cheatcode may name a
/// sender, and every other call comes from the one named last.
pub open spec fn on_call_spec(sender: Option<Seq<u8>>, target: Seq<u8>, data: Seq<u8>) -> (
    Option<Seq<u8>>,
    ActionV,
) {
    if target == vm_address() {
        (
            match named_sender(data) {
                Some(a) => Some(a),
                None => sender,
            },
            ActionV::Swallow,
        )
    } else {
        (
            sender,
            match sender {
                Some(a) => ActionV::From(a),
                None => ActionV::AsIs,
            },
        )
    }
}

fn same_bytes(a: &[u8], b: &[u8]) -> (r: bool)
    ensures
        r == (a@ == b@),
{
    if a.len() != b.len() {
        return false;
    }
    let mut i: usize = 0;
    while i < a.len()
        invariant
            i <= a@.len(),
            a@.len() == b@.len(),
            forall|k: int| 0 <= k < i ==> a@[k] == b@[k],
        decreases a@.len() - i,
    {
        if a[i] != b[i] {
            return false;
        }
        i += 1;
    }
    assert(a@ =~= b@);
    true
}

impl Cheats {
    pub fn new() -> (r: Self)
        ensures
            r.sender is None,
    {
        Cheats { sender: None }
    }

    /// Decides what is to be done with a call to `target`.
    pub fn on_call(&mut self, target: &[u8], data: &[u8]) -> (r: CallAction)
        ensures
            on_call_spec(bytes_v(old(self).sender), target@, data@) == (
                bytes_v(final(self).sender),
                r@,
            ),
    {
        let vm = vm_bytes();
        if same_bytes(target, &vm) {
            if data.len() >= 36 && has_selector(data, 0x06, 0x44, 0x7d, 0x56) {
                self.sender = Some(copy_bytes(data, 16, 36));
            }
            CallAction::Swallow
        } else {
            match &self.sender {
                Some(a) => {
                    let n = a.len();
                    let copy = copy_bytes(a.as_slice(), 0, n);
                    assert(copy@ =~= a@);
                    CallAction::From(copy)
                },
                None => CallAction::AsIs,
            }
        }
    }
}

/// The line that reports one test.
pub open spec fn line_spec(name: Seq<char>, reason: Option<Seq<char>>) -> Seq<char> {
    match reason {
        None => "  ok    "@ + name,
        Some(why) => "  FAIL  "@ + name + ": "@ + why,
    }
}

pub fn outcome_line(o: &TestOutcome) -> (r: String)
    ensures
        r@ == line_spec(o.name@, opt_text(o.reason)),
{
    match &o.reason {
        None => cat2("  ok    ", o.name.as_str()),
        Some(why) => cat4("  FAIL  ", o.name.as_str(), ": ", why.as_str()),
    }
}

/// How many of the first `n` tests passed.
pub open spec fn passes(os: Seq<TestOutcome>, n: nat) -> nat
    decreases n,
{
    if n == 0 {
        0
    } else {
        passes(os, (n - 1) as nat) + (if os[n - 1].passed {
            1nat
        } else {
            0nat
        })
    }
}

/// The line that counts the tests of a run.
pub open spec fn summary_spec(os: Seq<TestOutcome>) -> Seq<char> {
    let good = passes(os, os.len());
    dec(os.len()) + (if os.len() == 1 {
        " test, "@
    } else {
        " tests, "@
    }) + dec(good) + " passed, "@ + dec((os.len() - good) as nat) + " failed"@
}

pub fn summary(os: &Vec<TestOutcome>) -> (r: String)
    ensures
        r@ == summary_spec(os@),
{
    let mut good: usize = 0;
    let mut i: usize = 0;
    while i < os.len()
        invariant
            i <= os@.len(),
            good <= i,
            good == passes(os@, i as nat),
        decreases os@.len() - i,
    {
        if os[i].passed {
            good += 1;
        }
        i += 1;
    }
    let word = if os.len() == 1 {
        " test, "
    } else {
        " tests, "
    };
    cat6(
        dec_text(os.len()).as_str(),
        word,
        dec_text(good).as_str(),
        " passed, ",
        dec_text(os.len() - good).as_str(),
        " failed",
    )
}

/// A named sender stays until another is named: a call that is no cheatcode leaves it,
/// and so does a cheatcode that names none.
pub proof fn law_sender_stays(sender: Option<Seq<u8>>, target: Seq<u8>, data: Seq<u8>)
    requires
        target != vm_address() || named_sender(data) is None,
    ensures
        on_call_spec(sender, target, data).0 == sender,
{
}

} // verus!
