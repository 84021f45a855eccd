use gumc::codegen::abi::AbiEntry;
use gumc::codegen::backend::{Backend, EvmYulBackend};
use gumc::codegen::layout::LayoutEngine;
use gumc::parser::parse_program;
use gumc::semantic::modules::Source;
use gumc::semantic::TypeChecker;
use gumc::stdlib::lookup;

/// Everything from the source to the code, with the standard library for imports.
fn build(src: &str, rich: bool) -> Result<Vec<(String, String, Vec<AbiEntry>)>, Vec<String>> {
    let program = parse_program(src)?;
    let mut tc = TypeChecker::new();
    let mut im = tc.start(&program);
    while let Some(s) = im.next(".") {
        match s {
            Source::Std { use_path, module, symbol } => {
                let parsed = if im.knows(&module) {
                    None
                } else {
                    Some(parse_program(lookup(&module).unwrap()))
                };
                tc.load(&mut im, &use_path, &module, symbol, parsed);
            }
            Source::Local { use_path, direct, fallback } => {
                im.note_missing(&use_path, &direct, fallback.as_ref().map(|p| p.0.as_str()), "none");
            }
        }
    }
    tc.check(&program, &im)?;
    let layout = LayoutEngine::new(&tc);
    EvmYulBackend::new(rich).generate(&program, &layout).map_err(|e| vec![e])
}

fn compile(src: &str) -> Vec<(String, String, Vec<AbiEntry>)> {
    build(src, false).unwrap_or_else(|e| panic!("{:#?}", e))
}

/// The code of the first contract.
fn yul(src: &str) -> String {
    compile(src).remove(0).1
}

fn errors(src: &str) -> Vec<String> {
    match build(src, false) {
        Ok(_) => vec![],
        Err(e) => e,
    }
}

/// A function of the code, or a case of its dispatcher, on one line.
fn part(code: &str, head: &str) -> String {
    let from = code.find(head).unwrap_or_else(|| panic!("no {}", head));
    let mut depth = 0;
    let mut out = String::new();
    for line in code[from..].lines() {
        let line = line.trim();
        if !out.is_empty() {
            out.push(' ');
        }
        out.push_str(line);
        depth += line.matches('{').count() as i32 - line.matches('}').count() as i32;
        if depth <= 0 {
            break;
        }
    }
    out
}

fn kinds(abi: &[AbiEntry]) -> Vec<(String, String, String)> {
    abi.iter()
        .map(|e| (e.entry_type.clone(), e.name.clone(), e.state_mutability.clone().unwrap_or_default()))
        .collect()
}

fn triple(a: &str, b: &str, c: &str) -> (String, String, String) {
    (a.to_string(), b.to_string(), c.to_string())
}

const WALLET: &str = "use gum.defaults.Account
use gum.defaults.Message

contract Wallet:
    HashMap(Account, u256) balances

    export fn deposit(u256 amount):
        var me = Message.sender()
        Wallet.balances[me] = Wallet.balances[me] + amount

    export fn balance_of(Account who) -> u256:
        return Wallet.balances[who]
";


#[test]
fn the_wallet_compiles() {
    let out = compile(WALLET);
    assert_eq!(out.len(), 1);
    assert_eq!(out[0].0, "Wallet");
    let code = &out[0].1;
    assert!(code.starts_with("object \"Wallet\" {\n  code {\n    // --- Deployment Code ---\n"));
    assert_eq!(
        part(code, "function Wallet_deposit(amount)"),
        "function Wallet_deposit(amount) { let me := Message_sender() sstore(gum_hash_slot(me, 0), checked_add(sload(gum_hash_slot(me, 0)), amount, not(0))) }"
    );
    assert_eq!(
        part(code, "function Wallet_balance_of(who)"),
        "function Wallet_balance_of(who) -> ret { ret := sload(gum_hash_slot(who, 0)) leave }"
    );
    assert_eq!(
        part(code, "function balance_of_impl(who)"),
        "function balance_of_impl(who) { mstore(0, sload(gum_hash_slot(who, 0))) return(0, 32) }"
    );
    assert_eq!(
        part(code, "case 0xb6b55f25"),
        "case 0xb6b55f25 /* deposit */ { if lt(calldatasize(), 36) { revert(0, 0) } let param_amount := calldataload(4) deposit_impl(param_amount) return(0, 0) }"
    );
    assert!(code.contains("      if callvalue() { revert(0, 0) }\n      if lt(calldatasize(), 4) { revert(0, 0) }\n      let selector := shr(224, calldataload(0))\n      switch selector\n"));
    assert!(code.contains("      default { revert(0, 0) }\n"));
    assert_eq!(
        kinds(&out[0].2),
        vec![triple("function", "deposit", "nonpayable"), triple("function", "balance_of", "view")]
    );
}

const VAULT: &str = "use gum.defaults.Account
use gum.defaults.Message

enum VaultLogs:                       // events are enum variants
    Deposited

class Stake:                          // a plain struct, a value, no storage
    u256 amount
    u256 since

interface IERC20:                     // an external contract; calls become CALL
    fn transfer(Account to, u256 amount) -> bool

contract Vault:                       // the on-chain state singleton
    u256 total                        // storage
    const Account owner               // fixed at deploy, no slot, ~3 gas to read
    transient u256 depth              // scratch state, cleared each transaction
    HashMap(Account, Stake) stakes    // nested and struct values both work
    [Stake] history                   // dynamic array

    fn new(Account o):                // constructor, runs once, at deploy
        Vault.owner = o

    export payable fn deposit(u256 amt):      // public entry point, takes ETH
        var who = Message.sender()            // immutable local, type inferred
        assert(amt > 0, \"zero deposit\")
        Vault.stakes[who].amount = Vault.stakes[who].amount + amt
        Vault.history.push()                  // append a zeroed element
        Vault.history[Vault.history.length - 1].amount = amt
        Vault.total = Vault.total + amt
        log(VaultLogs.Deposited, indexed(who), amt)

    fn internal_helper() -> u256:     // no `export` means no ABI selector
        return Vault.total

    export fn read(Account who) -> u256:
        return Vault.stakes[who].amount
";


#[test]
fn the_vault_compiles() {
    let out = compile(VAULT);
    let code = &out[0].1;
    assert_eq!(
        part(code, "function Vault_deposit(amt)"),
        "function Vault_deposit(amt) { let who := Message_sender() if iszero(gt(amt, 0)) { // assert failed gum_revert_str(shl(224, 0x08c379a0), __strlit_2()) } sstore(gum_hash_slot(who, 1), checked_add(sload(gum_hash_slot(who, 1)), amt, not(0))) sstore(2, add(sload(2), 1))  sstore(sarr_base(arr_data_base(2), checked_sub(sload(2), 1), sload(2), 2), amt) sstore(0, checked_add(sload(0), amt, not(0))) { let a0 := amt let alen := 32 let blob := allocate_memory(alen) mstore(add(blob, 0), a0) log2(blob, alen, 0x2da466a7b24304f47e87fa2e1e5a81b9831ce54fec19055ce277ca2f39ba42c4, who) } }"
    );
    assert_eq!(
        part(code, "function Vault_internal_helper()"),
        "function Vault_internal_helper() -> ret { ret := sload(0) leave }"
    );
    assert_eq!(
        part(code, "function Vault_new(o)"),
        "function Vault_new(o) -> _imm_owner { _imm_owner := o }"
    );
    assert!(code.contains("    setimmutable(0, \"Vault_owner\", "));
    assert_eq!(
        kinds(&out[0].2),
        vec![
            triple("constructor", "", "nonpayable"),
            triple("function", "deposit", "payable"),
            triple("function", "read", "view"),
            triple("event", "Deposited", ""),
        ]
    );
    let deposited = &out[0].2[3];
    assert_eq!(deposited.inputs.len(), 2);
    assert_eq!(deposited.inputs[0].type_text, "address");
    assert_eq!(deposited.inputs[0].indexed, Some(true));
    assert_eq!(deposited.inputs[1].type_text, "uint256");
    assert_eq!(deposited.inputs[1].indexed, Some(false));
}

const RATIONAL: &str = "class Rational:                       // a value type, lives in memory
    u256 num
    u256 den

    fn new(self, u256 n, u256 d):     // a constructor
        self.num = n
        self.den = d

    fn whole(self, u256 n):           // another constructor
        self.num = n
        self.den = 1

    fn scale(self, u256 k) -> u256:   // instance method
        return self.num * k / self.den

    fn half() -> Rational:            // associated fn
        return Rational.new(1, 2)

contract C:
    export fn f() -> u256:
        var r = Rational.whole(3)     // construct via a named constructor
        return r.scale(10)            // 30
";


#[test]
fn any_function_that_takes_self_constructs() {
    let code = yul(RATIONAL);
    assert_eq!(
        part(&code, "function C_f()"),
        "function C_f() -> ret { let r := __ctor_whole_Rational(3) ret := Rational_scale(r, 10) leave }"
    );
    assert_eq!(
        part(&code, "function Rational_scale(self, k)"),
        "function Rational_scale(self, k) -> ret { ret := checked_div(checked_mul(mload(add(self, 0)), k, not(0)), mload(add(self, 32))) leave }"
    );
    assert_eq!(
        part(&code, "function __ctor_whole_Rational"),
        "function __ctor_whole_Rational(n) -> selfp { selfp := allocate_memory(64) Rational_whole(selfp, n) }"
    );
}

const DEMO: &str = "# demo_test.gum
use gum.defaults.hashable

contract DemoTests:
    u256 counter

    fn fresh_counter() -> u256:          # a helper, not a test
        return DemoTests.counter

    [Test]
    fn storage_roundtrips():
        DemoTests.counter = 7
        assert(self.fresh_counter() == 7, \"storage broke\")

    [Test]
    fn itoa_works():
        var n = 42
        assert(n.to_string() == \"42\", \"itoa wrong\")
";


#[test]
fn a_test_needs_no_export() {
    let out = compile(DEMO);
    let code = &out[0].1;
    assert!(code.contains(" /* storage_roundtrips */ {"));
    assert!(code.contains(" /* itoa_works */ {"));
    assert!(!code.contains(" /* fresh_counter */ {"));
    assert_eq!(
        part(code, "function DemoTests_itoa_works()"),
        "function DemoTests_itoa_works() { let n := 42 if iszero(gum_str_eq(gum_uint_to_str(n), __strlit_5())) { // assert failed gum_revert_str(shl(224, 0x08c379a0), __strlit_6()) } }"
    );
}

#[test]
fn loops_walk_storage() {
    let code = yul("contract C:
    [u256] xs
    export fn sum() -> u256:
        mut u256 t = 0
        for x in C.xs:
            t = t + x
        mut u256 i = 0
        while i < 3:
            i += 1
        if t > 5:
            return t
        else if t == 4:
            return 4
        else:
            return i
");
    assert_eq!(
        part(&code, "function C_sum()"),
        "function C_sum() -> ret { let t := 0 let __iter_base_2 := arr_data_base(0) let __iter_len_2 := sload(0) for { let __iter_i_2 := 0 } lt(__iter_i_2, __iter_len_2) { __iter_i_2 := add(__iter_i_2, 1) } { let x := pk_read(__iter_base_2, __iter_i_2, 1, 1, 32) t := checked_add(t, x, not(0)) } let i := 0 for {} lt(i, 3) {} { i := checked_add(i, 1, not(0)) } switch gt(t, 5) case 0 { switch eq(t, 4) case 0 { ret := i leave } default { ret := 4 leave } } default { ret := t leave } }"
    );
}

#[test]
fn a_match_switches_on_the_tag() {
    let code = yul("enum Status:
    Active
    Closed
enum Shape:
    Circle(u256 r)
    Point
contract C:
    Status s
    export fn f() -> u256:
        match C.s:
            Active:
                return 1
            Closed:
                return 2
    export fn g() -> u256:
        var p = Shape.Circle(4)
        match p:
            Circle(r):
                return r
            Point:
                return 0
");
    assert_eq!(part(&code, "function C_f()"), "function C_f() -> ret { let __match_3 := and(sload(0), 0xff) switch __match_3 case 0 { ret := 1 leave } case 1 { ret := 2 leave } }");
    assert_eq!(
        part(&code, "function C_g()"),
        "function C_g() -> ret { let p := make_enum(0, 4) let __match_4 := p switch mload(__match_4) case 0 { let r := mload(add(__match_4, 32)) ret := r leave } case 1 { ret := 0 leave } }"
    );
}

#[test]
fn a_match_must_be_exhaustive() {
    let e = errors("enum Status:
    Active
    Closed
contract C:
    Status s
    export fn f() -> u256:
        match C.s:
            Active:
                return 1
        return 0
");
    assert_eq!(e, vec!["Semantic Error at 7:9: Match is not exhaustive. Missing variant: 'Closed'".to_string()]);
}

#[test]
fn strings_errors_and_transfers() {
    let code = yul("use gum.defaults.Account
error Insufficient(u256 have)
class Stake:
    u256 amount
    bool live
contract Child:
    u256 v
    fn new(u256 x):
        Child.v = x
    export fn get() -> u256:
        return Child.v
contract C:
    HashMap(Account, Stake) stakes
    String name
    u8 a
    u8 b
    bool c
    export fn f(Account who, u256 amt) -> String:
        delete C.stakes[who]
        if amt > 100:
            revert Insufficient(amt)
        var ch = Child.new(amt)
        who.transfer(amt)
        C.name = \"hello\"
        C.a = 3
        return f\"balance: {amt}!\"
");
    assert!(code.starts_with("object \"Child\""));
    let out = compile("contract C:
    u8 a
    u8 b
    bool c
    export fn f() -> u8:
        C.b = 3
        return C.b
");
    assert_eq!(part(&out[0].1, "function C_f()"), "function C_f() -> ret { sstore(0, or(and(sload(0), not(shl(8, 0xff))), shl(8, and(3, 0xff)))) ret := and(and(shr(8, sload(0)), 0xff), 0xff) leave }");
}

#[test]
fn an_override_reaches_the_replaced_method() {
    let code = yul("class Base:
    u256 x
    fn get(self) -> u256:
        return self.x
[Base]
class Derived:
    u256 y
    fn get(self) -> u256:
        return super.get() + self.y
    fn new(self, u256 a, u256 b):
        self.x = a
        self.y = b
contract C:
    export fn f() -> u256:
        var d = Derived.new(1, 2)
        return d.get()
");
    assert_eq!(
        part(&code, "function Derived_get(self)"),
        "function Derived_get(self) -> ret { ret := checked_add(Derived_super_get(self), mload(add(self, 32)), not(0)) leave }"
    );
    assert_eq!(
        part(&code, "function Derived_super_get(self)"),
        "function Derived_super_get(self) -> ret { ret := mload(add(self, 0)) leave }"
    );
}

#[test]
fn bare_ether_has_its_own_entry_points() {
    let out = compile("contract C:
    u256 total
    const u256 cap
    fn new():
        C.cap = 1000
    export payable fn receive():
        C.total = C.total + 1
    export fn fallback():
        C.total = 0
    export once fn initialize(u256 x):
        C.total = x
    unsafe export fn raw() -> u256:
        return C.cap
");
    let code = &out[0].1;
    assert_eq!(part(code, "if iszero(calldatasize())"), "if iszero(calldatasize()) { receive_impl() return(0, 0) }");
    assert_eq!(
        part(code, "if lt(calldatasize(), 4)"),
        "if lt(calldatasize(), 4) { if callvalue() { revert(0, 0) } fallback_impl() return(0, 0) }"
    );
    assert_eq!(part(code, "default {"), "default { if callvalue() { revert(0, 0) } fallback_impl() return(0, 0) }");
    assert_eq!(part(code, "function C_raw()"), "function C_raw() -> ret { ret := 1000 leave }");
    assert_eq!(part(code, "function initialize_impl(x)"), "function initialize_impl(x) { if sload(0xf180332f3a011d0a1e681061120c8f75dcfe389f4d3514824234a468e9167c69) { revert(0, 0) } sstore(0xf180332f3a011d0a1e681061120c8f75dcfe389f4d3514824234a468e9167c69, 1) sstore(0, x) }");
    assert_eq!(
        kinds(&out[0].2),
        vec![
            triple("constructor", "", "nonpayable"),
            triple("receive", "", "payable"),
            triple("fallback", "", "nonpayable"),
            triple("function", "initialize", "nonpayable"),
            triple("function", "raw", "view"),
        ]
    );
}

#[test]
fn generic_classes_are_made_for_each_argument() {
    let code = yul("class Box(All T):
    T item
    fn new(self, T x):
        self.item = x
    fn get(self) -> T:
        return self.item
contract C:
    export fn f() -> u256:
        Box(u256) b = Box(u256).new(7)
        return b.get()
");
    assert_eq!(
        part(&code, "function C_f()"),
        "function C_f() -> ret { let b := __ctor_new_Box_u256(7) ret := Box_u256_get(b) leave }"
    );
    assert_eq!(
        part(&code, "function Box_u256_get(self)"),
        "function Box_u256_get(self) -> ret { ret := mload(add(self, 0)) leave }"
    );
}

#[test]
fn arithmetic_is_checked_at_its_width() {
    let code = yul("contract C:
    export fn f(u256 a, u256 b) -> u256:
        return a + b * 2 - (a / b) ** 2 % 7
    export fn g(i256 a, i256 b) -> i256:
        return a * b - -a
    export fn h(u256 a, bool p) -> bool:
        return !p && a >= 3 || a == 8
    export fn k(u8 a) -> u8:
        return a + 1
");
    assert_eq!(part(&code, "function C_f(a, b)"), "function C_f(a, b) -> ret { ret := checked_sub(checked_add(a, checked_mul(b, 2, not(0)), not(0)), checked_mod(checked_exp(checked_div(a, b), 2, not(0)), 7)) leave }");
    assert_eq!(part(&code, "function C_g(a, b)"), "function C_g(a, b) -> ret { ret := checked_ssub(checked_smul(a, b, 0x8000000000000000000000000000000000000000000000000000000000000000, 0x7fffffffffffffffffffffffffffffffffffffffffffffffffffffffffffffff), sub(0, a)) leave }");
    assert_eq!(part(&code, "function C_h(a, p)"), "function C_h(a, p) -> ret { ret := or(and(iszero(p), iszero(lt(a, 3))), eq(a, 8)) leave }");
    assert_eq!(part(&code, "function C_k(a)"), "function C_k(a) -> ret { ret := and(checked_add(a, 1, 0xff), 0xff) leave }");
}

#[test]
fn a_failed_check_says_why_only_when_asked() {
    let src = "contract C:
    export fn f(u256 a) -> u256:
        return a + 1
";
    let lean = build(src, false).unwrap().remove(0).1;
    let rich = build(src, true).unwrap().remove(0).1;
    assert_eq!(part(&lean, "function checked_add("), "function checked_add(a, b, max) -> r { r := add(a, b) if or(lt(r, a), gt(r, max)) { revert(0, 0) } }");
    assert_eq!(part(&rich, "function checked_add("), "function checked_add(a, b, max) -> r { r := add(a, b) if or(lt(r, a), gt(r, max)) { mstore(0, shl(224, 0x4e487b71)) mstore(4, 0x11) revert(0, 0x24) } }");
}

#[test]
fn vectors_and_fixed_arrays_pack() {
    let code = yul("contract C:
    Vec(u256) v
    [u8; 4] quad
    export fn f() -> u256:
        C.v.push(4)
        C.quad[1] = 7
        return C.v.get(0) + C.v.len()
");
    assert_eq!(part(&code, "function C_f()"), "function C_f() -> ret { dpk_push(0, 1, 1, 32, 4)  pk_set(1, 1, 4, 32, 1, 1, 7) ret := checked_add(pk_get(arr_data_base(0), 0, sload(0), 1, 1, 32), sload(0), not(0)) leave }");
}

#[test]
fn an_entry_that_calls_out_takes_the_lock() {
    let code = yul("interface IERC20:
    fn transfer(Account to, u256 amount) -> bool
contract C:
    u256 n
    export fn f(Account t, Account to) -> bool:
        C.n = C.n + 1
        return IERC20(t).transfer(to, 3)
    export fn g():
        C.n = 0
    export unsafe fn h(Account t, Account to) -> bool:
        C.n = C.n + 1
        return IERC20(t).transfer(to, 3)
");
    let f = part(&code, "/* f */ {");
    assert!(f.contains("if tload("), "{}", f);
    assert!(!part(&code, "/* g */ {").contains("tload("));
    assert!(!part(&code, "/* h */ {").contains("tload("));
}

#[test]
fn each_error_of_a_program_is_found() {
    let e = errors("contract C:
    u256 x
    export fn f() -> u256:
        C.x = true
        return 1
    export fn g() -> u256:
        if C.x > 1:
            return 1
    fn receive():
        C.x = 1
    const u256 k
");
    assert_eq!(e.len(), 4);
    assert!(e[0].starts_with("Semantic Error: 'C' declares const field(s) 'k' but has no fn new()."));
    assert!(e[1].starts_with("Semantic Error: 'receive' in contract 'C' is a reserved entry point"));
    assert_eq!(
        e[2],
        "Semantic Error at 4:9: Type Mismatch on assignment. Expected Primitive(\"u256\"), found Primitive(\"bool\")"
    );
    assert_eq!(
        e[3],
        "Semantic Error: Method 'C.g' promises to return Primitive(\"u256\"), but does not guarantee a return on all paths."
    );
}

#[test]
fn a_local_stays_unless_it_is_mut() {
    assert_eq!(errors("contract C:
    export fn f() -> u256:
        var x = 1
        x = 2
        return x
"), vec!["Semantic Error at 4:9: Cannot reassign to constant variable 'x'!".to_string()]);
    assert_eq!(errors("contract C:
    export fn f() -> u256:
        mut var x = 1
        x = 2
        return x
"), Vec::<String>::new());
}

#[test]
fn a_const_is_set_on_every_path() {
    assert_eq!(errors("contract C:
    const u256 k
    fn new(bool b):
        if b:
            C.k = 1
"), vec!["Semantic Error: const field 'k' of 'C' is assigned in fn new(), but not on every path through it. On the paths that skip the assignment it would be fixed at zero for the life of the contract. Give every branch an assignment (an if needs its else), or assign it once unconditionally, note that an assignment inside a loop never counts, since the loop may run zero times.".to_string()]);
}

#[test]
fn an_event_keeps_one_shape() {
    assert_eq!(errors("enum L:
    Paid
contract C:
    export fn f(u256 a, bool b):
        log(L.Paid, a)
        log(L.Paid, b)
"), vec!["event 'Paid' is logged with two different shapes: Paid(uint256) and Paid(bool). An event name maps to exactly one ABI entry, so every log() of it must pass the same field types and mark the same fields indexed.\nevent 'Paid' is logged with two different shapes: Paid(uint256) and Paid(bool). An event name maps to exactly one ABI entry, so every log() of it must pass the same field types and mark the same fields indexed.".to_string()]);
}

#[test]
fn a_struct_array_is_pushed_empty() {
    assert_eq!(errors("class S:
    u256 a
contract C:
    [S] xs
    export fn f():
        var s = S(1)
        C.xs.push(s)
"), vec!["Semantic Error at 7:9: push() on an array of struct 'S' takes no argument: gum has no struct copy. Append a zeroed element with arr.push(), then set its fields, arr[arr.length - 1].field = v.".to_string()]);
}

#[test]
fn a_child_contract_is_embedded() {
    let out = compile("contract Child:
    u256 v
    fn new(u256 x):
        Child.v = x
contract C:
    export fn make() -> Account:
        var c = Child.new(5)
        return c
");
    assert_eq!(out.len(), 2);
    assert!(out[1].1.contains("object \"Child\" {"));
    assert!(out[1].1.contains("create(0, "));
}

#[test]
fn the_same_source_gives_the_same_code() {
    assert_eq!(yul(VAULT), yul(VAULT));
}

const TRYING: &str = "interface IReceiver:
    fn onReceived(u256 amt)
enum L:
    Failed
contract C:
    u256 total
    export fn f(Account to, u256 amt) -> u256:
        mut u256 n = 1
        u256 k = 5
        try:
            C.total = C.total + amt
            n = n + k
            IReceiver(to).onReceived(amt)
        catch:
            log(L.Failed, amt)
        return n
    export fn g(u256 amt) -> u256:
        try:
            return amt - 1
        catch:
            return 0
    export fn h(u256 amt):
        try:
            if amt > 3:
                return
            C.total = amt
        catch:
            C.total = 0
        C.total = C.total + 1
";

#[test]
fn a_try_block_runs_in_a_frame_of_its_own() {
    let out = compile(TRYING);
    let code = &out[0].1;
    assert_eq!(part(code, "function C_f(to, amt)"), "function C_f(to, amt) -> ret { let n := 1 let k := 5 let __sender_0 := Message_sender() let __value_0 := Message_value() let __try_ok_4 := __try_f_0_call(amt, n, k, to, __sender_0, __value_0) if __try_ok_4 { if lt(returndatasize(), 32) { revert(0, 0) } returndatacopy(0, 0, 32) n := mload(0) } if iszero(__try_ok_4) { { let a0 := amt let alen := 32 let blob := allocate_memory(alen) mstore(add(blob, 0), a0) log1(blob, alen, 0xc77ea6414b21b2cf2170f259ee35ec16a7cbf16eeace77cc3ae8c6d52556881a) } } ret := n leave }");
}

#[test]
fn a_frame_opens_to_the_contract_alone() {
    let out = compile(TRYING);
    let code = &out[0].1;
    assert_eq!(part(code, "function __try_f_0_impl("), "function __try_f_0_impl(amt, n, k, to, __sender_0, __value_0) { if iszero(tload(0xfffffffffffffffffffffffffffffffffffffffffffffffffffffffffffffffe)) { revert(0, 0) } tstore(0xfffffffffffffffffffffffffffffffffffffffffffffffffffffffffffffffe, 0) let __frame := allocate_memory(64) mstore(__frame, __sender_0) mstore(add(__frame, 32), __value_0) mstore(0x60, __frame) sstore(0, checked_add(sload(0), amt, not(0))) n := checked_add(n, k, not(0)) __extcall_IReceiver_onReceived(to, amt) tstore(0xfffffffffffffffffffffffffffffffffffffffffffffffffffffffffffffffd, 0) { let a0 := n let alen := 32 let blob := allocate_memory(alen) mstore(add(blob, 0), a0) return(blob, alen) } }");
}

#[test]
fn a_frame_is_called_and_may_fail() {
    let code = yul(TRYING);
    assert_eq!(part(&code, "function __try_f_0_call("), "function __try_f_0_call(a0, a1, a2, a3, a4, a5) -> ok { let alen := 192 let ptr := allocate_memory(add(4, alen)) mstore(ptr, shl(224, 0x6c08948f)) let blob := add(ptr, 4) mstore(add(blob, 0), a0) mstore(add(blob, 32), a1) mstore(add(blob, 64), a2) mstore(add(blob, 96), a3) mstore(add(blob, 128), a4) mstore(add(blob, 160), a5) tstore(0xfffffffffffffffffffffffffffffffffffffffffffffffffffffffffffffffe, 1) ok := call(gas(), address(), 0, ptr, add(4, alen), 0, 0) tstore(0xfffffffffffffffffffffffffffffffffffffffffffffffffffffffffffffffe, 0) }");
}

#[test]
fn a_frame_is_no_part_of_the_abi() {
    let out = compile(TRYING);
    assert_eq!(
        kinds(&out[0].2),
        vec![
            triple("function", "f", "nonpayable"),
            triple("function", "g", "nonpayable"),
            triple("function", "h", "nonpayable"),
            triple("event", "Failed", ""),
        ]
    );
    assert!(out[0].1.contains(" /* __try_f_0 */ {"));
}

#[test]
fn a_value_returned_in_a_frame_is_returned() {
    let code = yul(TRYING);
    assert_eq!(part(&code, "function C_g(amt)"), "function C_g(amt) -> ret { let __sender_1 := Message_sender() let __value_1 := Message_value() let __try_ok_5 := __try_g_1_call(amt, __sender_1, __value_1) if __try_ok_5 { if gt(returndatasize(), 0) { tstore(0xfffffffffffffffffffffffffffffffffffffffffffffffffffffffffffffffd, 1) if lt(returndatasize(), 32) { revert(0, 0) } returndatacopy(0, 0, 32) ret := mload(0) leave } } if iszero(__try_ok_5) { ret := 0 leave } }");
}

#[test]
fn a_function_can_be_left_out_of_a_frame() {
    let code = yul(TRYING);
    assert_eq!(part(&code, "function C_h(amt)"), "function C_h(amt) { let __left_2 := 0 let __sender_2 := Message_sender() let __value_2 := Message_value() let __try_ok_6 := __try_h_2_call(amt, __sender_2, __value_2) if __try_ok_6 { if lt(returndatasize(), 32) { revert(0, 0) } returndatacopy(0, 0, 32) __left_2 := mload(0) } if iszero(__try_ok_6) { sstore(0, 0) } if __left_2 { leave } sstore(0, checked_add(sload(0), 1, not(0))) }");
}

#[test]
fn what_leaves_a_function_in_a_frame_is_handed_back() {
    let code = yul(TRYING);
    assert_eq!(part(&code, "function __try_h_2_impl("), "function __try_h_2_impl(amt, __sender_2, __value_2) { if iszero(tload(0xfffffffffffffffffffffffffffffffffffffffffffffffffffffffffffffffe)) { revert(0, 0) } tstore(0xfffffffffffffffffffffffffffffffffffffffffffffffffffffffffffffffe, 0) let __frame := allocate_memory(64) mstore(__frame, __sender_2) mstore(add(__frame, 32), __value_2) mstore(0x60, __frame) let __left_2 := 0 if gt(amt, 3) { __left_2 := 1 tstore(0xfffffffffffffffffffffffffffffffffffffffffffffffffffffffffffffffd, 0) { let a0 := __left_2 let alen := 32 let blob := allocate_memory(alen) mstore(add(blob, 0), a0) return(blob, alen) } } sstore(0, amt) tstore(0xfffffffffffffffffffffffffffffffffffffffffffffffffffffffffffffffd, 0) { let a0 := __left_2 let alen := 32 let blob := allocate_memory(alen) mstore(add(blob, 0), a0) return(blob, alen) } }");
}

#[test]
fn the_caller_is_the_same_in_a_frame() {
    let code = yul(TRYING);
    assert_eq!(
        part(&code, "function Message_sender()"),
        "function Message_sender() -> ret { ret := caller() let frame := mload(0x60) if frame { ret := mload(frame) } }"
    );
    assert_eq!(part(&yul(WALLET), "function Message_sender()"), "function Message_sender() -> ret { ret := caller() }");
}

#[test]
fn a_local_that_no_call_carries_stays_out_of_a_frame() {
    assert_eq!(errors("enum P:
    X(u256 v)
    Y
contract C:
    u256 n
    export fn f():
        P p = P.X(1)
        try:
            match p:
                X(v):
                    C.n = v
                Y:
                    C.n = 0
        catch:
            C.n = 1
"), vec!["try in 'f': the block runs in a frame of its own, and 'p' of type P cannot be carried into it. Copy what the block needs into a local first.".to_string()]);
}

#[test]
fn a_constructor_keeps_its_blocks() {
    let code = yul("interface I:
    fn go()
contract C:
    u256 n
    fn new(Account a):
        try:
            I(a).go()
        catch:
            C.n = 1
");
    assert!(!code.contains("__try_new_0"));
    assert!(part(&code, "function C_new(a)").contains("gum_check_exception()"));
}

#[test]
fn contracts_may_not_hold_each_other() {
    let e = errors("contract A:
    export fn f():
        var b = B.new()
contract B:
    export fn g():
        var a = A.new()
");
    assert_eq!(
        e,
        vec!["Deployment cycle: A -> B -> A. A contract's creation code is embedded in whatever deploys it, so this would be infinitely large. Deploy one of them from outside, and pass its address in.".to_string()]
    );
}

#[test]
fn mappings_hold_mappings_strings_and_arrays() {
    let code = yul("contract C:
    HashMap(u256, HashMap(Account, u256)) nested
    HashMap(u256, String) names
    HashMap(Account, [u256]) lists
    export fn f(u256 k, Account a, String s) -> u256:
        C.nested[k][a] = 5
        C.names[k] = s
        C.lists[a].push(7)
        delete C.names[k]
        delete C.lists[a]
        return C.lists[a].length + C.nested[k][a]
");
    assert_eq!(
        part(&code, "function C_f("),
        "function C_f(k, a, s) -> ret { sstore(gum_hash_slot(a, gum_hash_slot(k, 0)), 5) gum_sstr_store(gum_hash_slot(k, 1), s) dpk_push(gum_hash_slot(a, 2), 1, 1, 32, 7)  gum_sstr_clear(gum_hash_slot(k, 1)) dpk_clear(gum_hash_slot(a, 2), 1, 1) ret := checked_add(sload(gum_hash_slot(a, 2)), sload(gum_hash_slot(a, gum_hash_slot(k, 0))), not(0)) leave }"
    );
}

#[test]
fn small_integers_keep_their_bounds() {
    let code = yul("contract C:
    i8 small
    export fn f(u8 a, i8 b) -> u8:
        C.small = b * b
        return (a + 200).saturate()
    export fn g(u256 n) -> String:
        return n.to_string()
");
    assert_eq!(
        part(&code, "function C_f("),
        "function C_f(a, b) -> ret { sstore(0, or(and(sload(0), not(shl(0, 0xff))), shl(0, and(checked_smul(b, b, 0xffffffffffffffffffffffffffffffffffffffffffffffffffffffffffffff80, 0x000000000000000000000000000000000000000000000000000000000000007f), 0xff)))) ret := and(sat_add(a, 200), 0xff) leave }"
    );
    assert_eq!(part(&code, "function C_g("), "function C_g(n) -> ret { ret := gum_uint_to_str(n) leave }");
}

#[test]
fn transient_fields_have_a_space_of_their_own() {
    let code = yul("contract C:
    transient HashMap(Account, u256) seen
    transient [u256] scratch
    transient String note
    u256 kept
    export fn f(Account a, String s) -> u256:
        C.seen[a] = 1
        C.scratch.push(2)
        C.note = s
        C.kept = 4
        return C.scratch[0]
");
    assert_eq!(
        part(&code, "function C_f("),
        "function C_f(a, s) -> ret { tstore(gum_hash_slot(a, 0), 1) dpk_push_t(1, 1, 1, 32, 2)  gum_sstr_store_t(2, s) sstore(0, 4) ret := pk_get_t(arr_data_base(1), 0, tload(1), 1, 1, 32) leave }"
    );
}

#[test]
fn a_test_can_name_its_sender() {
    let out = compile("use gum.defaults.Account
contract V:
    u256 n
    fn new():
        V.n = 1
    export fn pause():
        V.n = 2
interface IV:
    fn pause()
contract T:
    u256 n
    [Test]
    fn only_owner():
        var v = V.new()
        Vm.sender = 0x00000000000000000000000000000000000000AA
        IV(v).pause()
");
    assert_eq!(
        part(&out[1].1, "function T_only_owner("),
        "function T_only_owner() { let v := __deploy_V() __vm_set_sender(0x00000000000000000000000000000000000000AA) __extcall_IV_pause(v) }"
    );
}

#[test]
fn answers_of_other_contracts_are_decoded() {
    let code = yul("class Pt:
    u256 x
    String s
interface I:
    fn get(u256 k) -> Pt
    fn list() -> [u256]
    fn name() -> String
contract C:
    u256 n
    export fn f(Account a) -> String:
        var p = I(a).get(1)
        var l = I(a).list()
        C.n = p.x + l[0]
        return I(a).name()
");
    assert_eq!(
        part(&code, "function C_f("),
        "function C_f(a) -> ret { let p := __extcall_I_get(a, 1) let l := __extcall_I_list(a) sstore(0, checked_add(mload(add(p, 0)), mload(gum_marr_addr(l, 0, 32)), not(0))) ret := __extcall_I_name(a) leave }"
    );
}

#[test]
fn structs_stand_in_storage_and_in_memory() {
    let code = yul("class S:
    u256 a
    u8 b
    fn new(self, u256 x):
        self.a = x
        self.b = 3
    fn sum(self) -> u256:
        return self.a + self.b
contract C:
    S one
    HashMap(u256, S) by
    export fn f() -> u256:
        var s = S.new(4)
        C.one.a = s.a
        delete C.by[1]
        return s.sum()
");
    assert_eq!(
        part(&code, "function C_f("),
        "function C_f() -> ret { let s := __ctor_new_S(4) sstore(0, mload(add(s, 0))) let __del_2 := gum_hash_slot(1, 2) sstore(__del_2, 0) sstore(add(__del_2, 1), 0) ret := S_sum(s) leave }"
    );
    assert_eq!(
        part(&code, "function S_sum("),
        "function S_sum(self) -> ret { ret := checked_add(mload(add(self, 0)), and(shr(248, mload(add(self, 32))), 0xff), not(0)) leave }"
    );
}

#[test]
fn a_custom_error_carries_its_fields() {
    let code = yul("error Bad(u256 a)
contract C:
    u256 n
    export fn f(bool p):
        assert(p, Bad(1))
        if C.n == 3:
            revert Bad(C.n)
");
    let f = part(&code, "function C_f(");
    assert!(f.contains("// assert failed: Bad"), "{}", f);
    assert!(f.contains("// Revert Bad"), "{}", f);
}

#[test]
fn a_condition_is_read_once() {
    let code = yul("contract C:
    export fn f(u256 a) -> u256:
        mut u256 x = a
        if x > 0:
            x = 0
        else:
            x = 5
        return x
    export fn g(u256 a) -> u256:
        mut u256 x = a
        if x > 0:
            x = 0
        return x
");
    assert_eq!(
        part(&code, "function C_f(a)"),
        "function C_f(a) -> ret { let x := a switch gt(x, 0) case 0 { x := 5 } default { x := 0 } ret := x leave }"
    );
    assert_eq!(part(&code, "function C_g(a)"), "function C_g(a) -> ret { let x := a if gt(x, 0) { x := 0 } ret := x leave }");
}

#[test]
fn arms_run_for_their_own_variants() {
    let code = yul("enum E:
    A
    B
enum Shape:
    Circle(u256 r)
    Point
contract C:
    E e
    export fn f() -> u256:
        mut u256 x = 0
        match C.e:
            B:
                x = 1
            A:
                x = 2
        return x
    export fn g() -> u256:
        var e = E.B
        match e:
            B:
                return 1
            A:
                return 2
    export fn h() -> u256:
        var s = Shape.Circle(4)
        match s:
            Point:
                return 0
            Circle(r):
                return r
");
    let f = part(&code, "function C_f()");
    assert!(f.contains("case 1 { x := 1 } case 0 { x := 2 }"), "{}", f);
    assert!(code.contains("case 1 {\n"), "{}", code);
    let g = part(&code, "function C_g()");
    assert!(g.contains("case 1 { ret := 1 leave } case 0 { ret := 2 leave }"), "{}", g);
    assert!(!g.contains("mload"), "{}", g);
    let h = part(&code, "function C_h()");
    assert!(h.contains("case 1 { ret := 0 leave } case 0 { let r := mload(add("), "{}", h);
}

#[test]
fn an_element_reads_the_same_either_way() {
    let code = yul("contract C:
    [i8] v
    export fn a(u256 i) -> i8:
        return C.v[i]
    export fn b(u256 i) -> i8:
        return C.v.get(i)
");
    let read = "signextend(0, pk_get(arr_data_base(0), i, sload(0), 32, 1, 1))";
    assert!(part(&code, "function C_a(i)").contains(read));
    assert!(part(&code, "function C_b(i)").contains(read));
}

#[test]
fn ether_is_refused_where_nothing_takes_it() {
    let code = yul("contract C:
    u256 n
    export fn fallback():
        C.n = 1
");
    let value = code.find("      if callvalue() { revert(0, 0) }\n").unwrap();
    assert!(value < code.find("      if iszero(calldatasize())").unwrap());
    assert!(value < code.find("      if lt(calldatasize(), 4)").unwrap());
    assert!(value < code.find("      default {").unwrap());
}

#[test]
fn fixed_arrays_of_fixed_arrays_cross() {
    let code = yul("contract C:
    export fn f([[u256; 2]; 2] m) -> [[u256; 2]; 2]:
        return m
    export fn g([[u8; 3]; 2] m) -> u8:
        return m[1][2]
");
    assert_eq!(
        part(&code, "function f_impl(m)"),
        "function f_impl(m) { let _p := m let _out := allocate_memory(128) pop(gum_abi_farr2_farr2_u256_put(_out, _p)) return(_out, 128) }"
    );
    let taken = part(&code, "/* f */");
    assert!(taken.contains("if lt(calldatasize(), 132) { revert(0, 0) }"), "{}", taken);
    assert!(taken.contains("_cd(4)"), "{}", taken);
    let small = part(&code, "/* g */");
    assert!(small.contains("if lt(calldatasize(), 196) { revert(0, 0) }"), "{}", small);
    assert!(small.contains("_cd(4)"), "{}", small);
}

#[test]
fn every_version_of_a_method_is_reached() {
    let code = yul("class A:
    u256 x
    fn get(self) -> u256:
        return self.x
[A]
class B:
    fn get(self) -> u256:
        return super.get() + 10
    fn twice(self) -> u256:
        return super.get() * 2
[B]
class D:
    fn get(self) -> u256:
        return super.get() + 100
    fn new(self, u256 a):
        self.x = a
contract C:
    export fn f() -> u256:
        var d = D.new(1)
        return d.get() + d.twice()
");
    assert_eq!(
        part(&code, "function D_get(self)"),
        "function D_get(self) -> ret { ret := checked_add(D_super_get(self), 100, not(0)) leave }"
    );
    assert_eq!(
        part(&code, "function D_super_get(self)"),
        "function D_super_get(self) -> ret { ret := checked_add(D_super_super_get(self), 10, not(0)) leave }"
    );
    assert_eq!(
        part(&code, "function D_super_super_get(self)"),
        "function D_super_super_get(self) -> ret { ret := mload(add(self, 0)) leave }"
    );
    assert!(part(&code, "function D_twice(self)").contains("D_super_super_get(self)"));
}

#[test]
fn a_match_knows_its_enum() {
    let code = yul("enum E:
    A
    B
class S:
    E kind
    fn tell(self) -> u256:
        match self.kind:
            B:
                return 1
            A:
                return 0
interface I:
    fn state() -> E
fn free(E e) -> E:
    return e
contract C:
    HashMap(u256, E) m
    [E] v
    [E; 2] w
    S s
    fn own() -> E:
        return C.v[0]
    export fn f(E e, Account t) -> u256:
        mut u256 x = 0
        match e:
            B:
                x = 1
            A:
                x = 2
        match C.m[3]:
            B:
                x = 1
            A:
                x = 2
        match C.v[1]:
            B:
                x = 1
            A:
                x = 2
        match C.w[1]:
            B:
                x = 1
            A:
                x = 2
        match C.s.kind:
            B:
                x = 1
            A:
                x = 2
        match self.own():
            B:
                x = 1
            A:
                x = 2
        match free(e):
            B:
                x = 1
            A:
                x = 2
        match I(t).state():
            B:
                x = 1
            A:
                x = 2
        for k in C.v:
            match k:
                B:
                    x = 1
                A:
                    x = 2
        return x
");
    let f = part(&code, "function C_f(e, t)");
    assert_eq!(f.matches("case 1 { x := 1 } case 0 { x := 2 }").count(), 9, "{}", f);
    assert!(!f.contains("switch mload("), "{}", f);
}

#[test]
fn a_generic_method_returns_what_it_is_made_for() {
    let code = yul("enum E:
    A
    B
class Box(All T):
    T item
    fn new(self, T x):
        self.item = x
    fn get(self) -> T:
        return self.item
contract C:
    export fn f() -> u256:
        Box(E) b = Box(E).new(E.B)
        b.get()
        match b.get():
            B:
                return 1
            A:
                return 2
");
    let f = part(&code, "function C_f()");
    assert!(f.contains("pop(Box_E_get(b))"), "{}", f);
    assert!(f.contains("case 1 { ret := 1 leave } case 0 { ret := 2 leave }"), "{}", f);
}

#[test]
fn a_written_version_is_not_moved() {
    let e = errors("class P:
    u256 x
    fn m(self) -> u256:
        return 1
    fn super_m(self) -> u256:
        return 2
    fn both(self) -> u256:
        return self.super_m()
[P]
class K:
    fn m(self) -> u256:
        return 3
contract C:
    export fn f() -> u256:
        return 0
");
    assert_eq!(
        e,
        vec!["Semantic Error: 'K' declares more than one method named 'super_m'. Each compiles to a function of that name, so the second would collide with the first.".to_string()]
    );
}
