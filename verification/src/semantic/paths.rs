//! Whether a function that promises a value returns one on every path.
use crate::ast::{
    arms_v, body_v, opt_expr_v, ArmV, Expr, ExprV, MatchArm, Spanned, SpannedV, Statement, StmtV,
    Type, TypeV,
};
use crate::semantic::{SemV, SymbolInfo, TypeChecker};
use crate::semantic::assign::is_assignable_spec;
use crate::semantic::eval::{payload_spec, type_of_spec};
use crate::semantic::spell::{debug_type, debugged, res_type_v};
use crate::semantic::verify::{fresh_scope, place_spec, place_text, placed_spec, placed_text};
use crate::text::{cat3, cat5};
use vstd::prelude::*;

verus! {

broadcast use crate::ast::group_views;

/// The scopes with one more that knows at most one name.
pub open spec fn with_scope(g: SemV, sym: Option<(Seq<char>, TypeV)>) -> SemV {
    SemV { sc: g.sc.push(fresh_scope(sym)), ..g }
}

/// The name that an arm gives to what its variant carries.
pub open spec fn arm_symbol(g: SemV, t: Result<TypeV, Seq<char>>, arm: ArmV) -> Option<
    (Seq<char>, TypeV),
> {
    match (arm.payload_var, t) {
        (Some(v), Ok(TypeV::Primitive(name))) => match payload_spec(g, name, arm.variant) {
            Some(Some(p)) => Some((v, p)),
            _ => None,
        },
        _ => None,
    }
}

/// Whether a returned value fits.
pub open spec fn return_fits(g: SemV, value: Option<ExprV>, expected: TypeV, place: Seq<char>) -> Result<
    bool,
    Seq<char>,
> {
    match value {
        None => Err(
            place + " return needs a value: this function returns "@ + debugged(expected),
        ),
        Some(v) => match type_of_spec(g, v) {
            Ok(t) => if is_assignable_spec(g, expected, t) {
                Ok(true)
            } else {
                Err(
                    place + " Return type mismatch. Expected "@ + debugged(expected) + ", got "@
                        + debugged(t),
                )
            },
            Err(e) => Err(placed_spec(place, e)),
        },
    }
}

/// Whether no path goes on after a statement; a revert ends a path as a return does.
pub open spec fn stmt_returns(g: SemV, s: SpannedV, expected: TypeV) -> Result<bool, Seq<char>>
    decreases s, 0nat,
{
    match s.node {
        StmtV::Return { value } => return_fits(g, value, expected, place_spec(s.line, s.col)),
        StmtV::Revert { .. } => Ok(true),
        StmtV::IfElse { condition: _, if_body, else_body } => match body_returns(
            g,
            if_body,
            expected,
            0,
        ) {
            Err(e) => Err(e),
            Ok(a) => match else_body {
                None => Ok(false),
                Some(b) => match body_returns(g, b, expected, 0) {
                    Err(e) => Err(e),
                    Ok(c) => Ok(a && c),
                },
            },
        },
        StmtV::TryCatch { try_body, catch_body } => match body_returns(g, try_body, expected, 0) {
            Err(e) => Err(e),
            Ok(a) => match body_returns(g, catch_body, expected, 0) {
                Err(e) => Err(e),
                Ok(c) => Ok(a && c),
            },
        },
        StmtV::Match { expr, arms } => if arms.len() == 0 {
            Ok(false)
        } else {
            arms_return(g, type_of_spec(g, expr), arms, expected, 0)
        },
        _ => Ok(false),
    }
}

/// Whether no path reaches the end of a body, from statement `i` on.
pub open spec fn body_returns(g: SemV, body: Seq<SpannedV>, expected: TypeV, i: nat) -> Result<
    bool,
    Seq<char>,
>
    decreases body, body.len() - i,
{
    if i >= body.len() {
        Ok(false)
    } else {
        match stmt_returns(g, body[i as int], expected) {
            Ok(done) => if done {
                Ok(true)
            } else {
                body_returns(g, body, expected, i + 1)
            },
            Err(e) => Err(e),
        }
    }
}

/// Whether every arm, from `i` on, returns.
pub open spec fn arms_return(
    g: SemV,
    t: Result<TypeV, Seq<char>>,
    arms: Seq<ArmV>,
    expected: TypeV,
    i: nat,
) -> Result<bool, Seq<char>>
    decreases arms, arms.len() - i,
{
    if i >= arms.len() {
        Ok(true)
    } else {
        let arm = arms[i as int];
        match body_returns(with_scope(g, arm_symbol(g, t, arm)), arm.body, expected, 0) {
            Ok(done) => if done {
                arms_return(g, t, arms, expected, i + 1)
            } else {
                Ok(false)
            },
            Err(e) => Err(e),
        }
    }
}

pub open spec fn res_bool_v(r: Result<bool, String>) -> Result<bool, Seq<char>> {
    match r {
        Ok(b) => Ok(b),
        Err(e) => Err(e@),
    }
}

impl TypeChecker {
    fn check_return(&self, value: &Option<Expr>, expected: &Type, place: &str) -> (r: Result<
        bool,
        String,
    >)
        ensures
            res_bool_v(r) == return_fits(self.sem(), opt_expr_v(*value), expected@, place@),
    {
        match value {
            None => Err(
                cat3(
                    place,
                    " return needs a value: this function returns ",
                    debug_type(expected).as_str(),
                ),
            ),
            Some(v) => match self.type_of(v) {
                Ok(t) => {
                    if self.is_assignable(expected, &t) {
                        Ok(true)
                    } else {
                        Err(
                            cat5(
                                place,
                                " Return type mismatch. Expected ",
                                debug_type(expected).as_str(),
                                ", got ",
                                debug_type(&t).as_str(),
                            ),
                        )
                    }
                },
                Err(e) => Err(placed_text(place, e)),
            },
        }
    }

    fn arm_payload(&self, t: &Result<Type, String>, arm: &MatchArm) -> (r: Option<(String, Type)>)
        ensures
            arm_symbol(self.sem(), res_type_v(*t), arm@) == (match r {
                Some(p) => Some((p.0@, p.1@)),
                None => None,
            }),
    {
        match (&arm.payload_var, t) {
            (Some(v), Ok(Type::Primitive(name))) => {
                match self.payload_of(name.as_str(), arm.variant.as_str()) {
                    Some(Some(p)) => Some((v.clone(), p)),
                    _ => None,
                }
            },
            _ => None,
        }
    }

    fn statement_returns(&mut self, s: &Spanned<Statement>, expected: &Type) -> (r: Result<
        bool,
        String,
    >)
        ensures
            final(self).fn_env() == old(self).fn_env(),
            final(self).chk() == old(self).chk(),
            res_bool_v(r) == stmt_returns(old(self).sem(), s@, expected@),
        decreases s, 0nat,
    {
        proof {
            reveal_with_fuel(Statement::view, 2);
        }
        match &s.node {
            Statement::Return { value } => {
                let place = place_text(s.line, s.col);
                self.check_return(value, expected, place.as_str())
            },
            Statement::Revert { .. } => Ok(true),
            Statement::IfElse { condition: _, if_body, else_body } => {
                let a = match self.check_returns(if_body, expected) {
                    Ok(a) => a,
                    Err(e) => {
                        return Err(e);
                    },
                };
                match else_body {
                    None => Ok(false),
                    Some(b) => match self.check_returns(b, expected) {
                        Ok(c) => Ok(a && c),
                        Err(e) => Err(e),
                    },
                }
            },
            Statement::TryCatch { try_body, catch_body } => {
                let a = match self.check_returns(try_body, expected) {
                    Ok(a) => a,
                    Err(e) => {
                        return Err(e);
                    },
                };
                match self.check_returns(catch_body, expected) {
                    Ok(c) => Ok(a && c),
                    Err(e) => Err(e),
                }
            },
            Statement::Match { expr, arms } => {
                assert(arms_v(arms@).len() == arms@.len());
                if arms.len() == 0 {
                    Ok(false)
                } else {
                    let t = self.type_of(expr);
                    self.check_arms(&t, arms, expected)
                }
            },
            _ => Ok(false),
        }
    }

    /// Whether no path reaches the end of a body.
    pub(crate) fn check_returns(
        &mut self,
        body: &Vec<Spanned<Statement>>,
        expected: &Type,
    ) -> (r: Result<bool, String>)
        ensures
            final(self).fn_env() == old(self).fn_env(),
            final(self).chk() == old(self).chk(),
            res_bool_v(r) == body_returns(old(self).sem(), body_v(body@), expected@, 0),
        decreases body, 0nat,
    {
        let ghost g = self.sem();
        let ghost bv = body_v(body@);
        let mut i: usize = 0;
        while i < body.len()
            invariant
                i <= body@.len(),
                self.fn_env() == old(self).fn_env(),
                self.chk() == old(self).chk(),
                g == old(self).sem(),
                bv == body_v(body@),
                body_returns(g, bv, expected@, 0) == body_returns(g, bv, expected@, i as nat),
            decreases body@.len() - i,
        {
            let s: &Spanned<Statement> = &body[i];
            proof {
                assert(decreases_to!(*body => *s));
                assert(bv[i as int] == s@);
                assert(self.sem() == g);
            }
            match self.statement_returns(s, expected) {
                Ok(done) => {
                    if done {
                        return Ok(true);
                    }
                },
                Err(e) => {
                    return Err(e);
                },
            }
            i += 1;
        }
        Ok(false)
    }

    fn check_arms(&mut self, t: &Result<Type, String>, arms: &Vec<MatchArm>, expected: &Type) -> (r:
        Result<bool, String>)
        ensures
            final(self).fn_env() == old(self).fn_env(),
            final(self).chk() == old(self).chk(),
            res_bool_v(r) == arms_return(
                old(self).sem(),
                res_type_v(*t),
                arms_v(arms@),
                expected@,
                0,
            ),
        decreases arms, 0nat,
    {
        let ghost g = self.sem();
        let ghost av = arms_v(arms@);
        let ghost tv = res_type_v(*t);
        let mut i: usize = 0;
        while i < arms.len()
            invariant
                i <= arms@.len(),
                self.fn_env() == old(self).fn_env(),
                self.chk() == old(self).chk(),
                g == old(self).sem(),
                av == arms_v(arms@),
                tv == res_type_v(*t),
                arms_return(g, tv, av, expected@, 0) == arms_return(
                    g,
                    tv,
                    av,
                    expected@,
                    i as nat,
                ),
            decreases arms@.len() - i,
        {
            let arm: &MatchArm = &arms[i];
            proof {
                assert(decreases_to!(*arms => *arm));
                assert(decreases_to!(*arms => arm.body));
                assert(av[i as int] == arm@);
                assert(self.sem() == g);
            }
            let ghost before = self.chk();
            let ghost sym = arm_symbol(g, tv, arm@);
            let payload = self.arm_payload(t, arm);
            self.push_scope();
            match &payload {
                Some(p) => self.insert_symbol(
                    p.0.clone(),
                    SymbolInfo { is_const: false, type_def: p.1.clone() },
                ),
                None => {},
            }
            assert(self.sem().sc =~= with_scope(g, sym).sc);
            let out = self.check_returns(&arm.body, expected);
            self.pop_scope();
            assert(self.scopes() =~= before.sc);
            match out {
                Ok(done) => {
                    if !done {
                        return Ok(false);
                    }
                },
                Err(e) => {
                    return Err(e);
                },
            }
            i += 1;
        }
        Ok(true)
    }
}

} // verus!
