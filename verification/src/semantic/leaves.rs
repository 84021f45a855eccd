//! Which expressions hand control to another contract.
use crate::ast::{exprs_v, segs_v, Expr, ExprV, FStringSegment, SegV, Type, TypeV};
use crate::semantic::{SemV, TypeChecker};
use crate::semantic::eval::{is_name, is_name_spec, type_of_spec};
use crate::text::same;
use vstd::prelude::*;

verus! {

broadcast use crate::ast::group_views;

/// Whether a method call leaves the contract: one on an interface, one that sends
/// ether, one that deploys.
pub open spec fn hands_over_spec(g: SemV, base: ExprV, method: Seq<char>) -> bool {
    if is_name_spec(base, "Account"@) && (method == "create"@ || method == "create2"@) {
        true
    } else {
        match type_of_spec(g, base) {
            Ok(t) => {
                match t {
                    TypeV::Primitive(n) => g.w.interfaces.contains(n) || (
                        n == "Account"@
                        && (method == "pay"@ || method == "transfer"@)
                    ),
                    _ => false,
                }
            },
            Err(_) => false,
        }
    }
}

impl TypeChecker {
    pub(crate) fn hands_over(&self, base: &Expr, method: &str) -> (r: bool)
        ensures
            r == hands_over_spec(self.sem(), base@, method@),
    {
        if is_name(base, "Account") && (same(method, "create") || same(method, "create2")) {
            return true;
        }
        match self.type_of(base) {
            Ok(t) => {
                match &t {
                    Type::Primitive(n) => self.loaded_interfaces.contains(n.as_str()) || (
                        same(n.as_str(), "Account")
                        && (same(method, "pay") || same(method, "transfer"))
                    ),
                    _ => false,
                }
            },
            Err(_) => false,
        }
    }
}

/// Whether an expression, or a part of it, leaves the contract.
pub open spec fn leaves_spec(g: SemV, e: ExprV) -> bool
    decreases e, 1nat,
{
    match e {
        ExprV::MethodCall { base, method, args } => {
            if hands_over_spec(g, *base, method) {
                true
            } else if leaves_spec(g, *base) {
                true
            } else {
                any_leaves_spec(g, args, args.len())
            }
        },
        ExprV::FnCall { args, .. } => any_leaves_spec(g, args, args.len()),
        ExprV::Instantiation { args, .. } => any_leaves_spec(g, args, args.len()),
        ExprV::StaticCall { args, .. } => any_leaves_spec(g, args, args.len()),
        ExprV::PropertyAccess { base, .. } => leaves_spec(g, *base),
        ExprV::IndexAccess { base, index } => {
            if leaves_spec(g, *base) {
                true
            } else {
                leaves_spec(g, *index)
            }
        },
        ExprV::BinaryOp { left, right, .. } => {
            if leaves_spec(g, *left) {
                true
            } else {
                leaves_spec(g, *right)
            }
        },
        ExprV::Neg(x) => leaves_spec(g, *x),
        ExprV::Not(x) => leaves_spec(g, *x),
        ExprV::ArrayLiteral(xs) => any_leaves_spec(g, xs, xs.len()),
        ExprV::FString(segs) => segs_leave_spec(g, segs, segs.len()),
        _ => false,
    }
}

impl TypeChecker {
    pub(crate) fn leaves(&self, e: &Expr) -> (r: bool)
        ensures
            r == leaves_spec(self.sem(), e@),
        decreases e, 1nat,
    {
        match e {
            Expr::MethodCall { base, method, args } => {
                if self.hands_over(base, method.as_str()) {
                    return true;
                }
                if self.leaves(base) {
                    return true;
                }
                self.any_leaves(args)
            },
            Expr::FnCall { args, .. } => self.any_leaves(args),
            Expr::Instantiation { args, .. } => self.any_leaves(args),
            Expr::StaticCall { args, .. } => self.any_leaves(args),
            Expr::PropertyAccess { base, .. } => self.leaves(base),
            Expr::IndexAccess { base, index } => {
                if self.leaves(base) {
                    return true;
                }
                self.leaves(index)
            },
            Expr::BinaryOp { left, right, .. } => {
                if self.leaves(left) {
                    return true;
                }
                self.leaves(right)
            },
            Expr::Neg(x) => self.leaves(x),
            Expr::Not(x) => self.leaves(x),
            Expr::ArrayLiteral(xs) => self.any_leaves(xs),
            Expr::FString(segs) => self.segs_leave(segs),
            _ => false,
        }
    }
}

pub open spec fn any_leaves_spec(g: SemV, xs: Seq<ExprV>, n: nat) -> bool
    decreases xs, n,
{
    if n == 0 || n > xs.len() {
        false
    } else {
        any_leaves_spec(g, xs, (n - 1) as nat) || leaves_spec(g, xs[n - 1])
    }
}

pub open spec fn segs_leave_spec(g: SemV, segs: Seq<SegV>, n: nat) -> bool
    decreases segs, n,
{
    if n == 0 || n > segs.len() {
        false
    } else {
        segs_leave_spec(g, segs, (n - 1) as nat) || (match segs[n - 1] {
            SegV::Interp(x) => leaves_spec(g, x),
            SegV::Literal(_) => false,
        })
    }
}

impl TypeChecker {
    pub(crate) fn any_leaves(&self, xs: &Vec<Expr>) -> (r: bool)
        ensures
            r == any_leaves_spec(self.sem(), exprs_v(xs@), xs@.len()),
        decreases xs, 0nat,
    {
        let ghost g = self.sem();
        let mut out = false;
        let mut i: usize = 0;
        while i < xs.len()
            invariant
                i <= xs@.len(),
                g == self.sem(),
                out == any_leaves_spec(g, exprs_v(xs@), i as nat),
            decreases xs@.len() - i,
        {
            let x: &Expr = &xs[i];
            assert(decreases_to!(*xs => *x));
            assert(exprs_v(xs@)[i as int] == x@);
            let one = self.leaves(x);
            out = out || one;
            i += 1;
        }
        out
    }

    fn segs_leave(&self, segs: &Vec<FStringSegment>) -> (r: bool)
        ensures
            r == segs_leave_spec(self.sem(), segs_v(segs@), segs@.len()),
        decreases segs, 0nat,
    {
        let ghost g = self.sem();
        let mut out = false;
        let mut i: usize = 0;
        while i < segs.len()
            invariant
                i <= segs@.len(),
                g == self.sem(),
                out == segs_leave_spec(g, segs_v(segs@), i as nat),
            decreases segs@.len() - i,
        {
            let s: &FStringSegment = &segs[i];
            assert(decreases_to!(*segs => *s));
            assert(segs_v(segs@)[i as int] == s@);
            match s {
                FStringSegment::Interp(x) => {
                    let one = self.leaves(x);
                    out = out || one;
                },
                FStringSegment::Literal(_) => {},
            }
            i += 1;
        }
        out
    }
}

} // verus!
