//! The combinators: `and`, `or` and `not` over child predicates.

use vstd::prelude::*;
use crate::json_value::Json;
use crate::predicate::Predicate;
use crate::predicate::PredicateImpl;
use crate::predicate::spec_eval_pred;
use crate::predicate::eval_pred;
use crate::predicate::context::PredicateContext;
use crate::predicate::context::final_path_spec;
use crate::predicate::error::PredicateError;
use crate::predicate::error::SpecErr;
use crate::predicate::error::res_view;

pub mod and;
pub mod not;
pub mod or;

use and::And;
use not::Not;
use or::Or;

verus! {

/// A combinator over an ordered list of child predicates.
#[derive(Debug, PartialEq, Eq)]
pub enum SecondOrder {
    And(And),
    Or(Or),
    Not(Not),
}

/// Conjunction: true if every child is true; the first child that is
/// false or fails settles the outcome.
pub open spec fn spec_eval_and(
    children: Seq<Predicate>,
    data: Json,
    root: Option<Seq<Seq<char>>>,
) -> Result<bool, SpecErr>
    decreases children, 1int,
{
    if children.len() == 0 {
        Ok(true)
    } else {
        match spec_eval_pred(children[0], data, root) {
            Ok(b) => {
                if b {
                    spec_eval_and(children.drop_first(), data, root)
                } else {
                    Ok(false)
                }
            },
            Err(e) => Err(e),
        }
    }
}

/// Disjunction: true at the first true child; a failing child only
/// clears the accumulator, so with no true child the result is true
/// exactly if no child failed.
pub open spec fn spec_eval_or(
    children: Seq<Predicate>,
    data: Json,
    root: Option<Seq<Seq<char>>>,
    acc: bool,
) -> Result<bool, SpecErr>
    decreases children, 1int,
{
    if children.len() == 0 {
        Ok(acc)
    } else {
        match spec_eval_pred(children[0], data, root) {
            Ok(b) => {
                if b {
                    Ok(true)
                } else {
                    spec_eval_or(children.drop_first(), data, root, acc)
                }
            },
            Err(_) => spec_eval_or(children.drop_first(), data, root, false),
        }
    }
}

/// Negation: false as soon as a child evaluates at all; true when
/// every child fails, a failure standing for "not true".
pub open spec fn spec_eval_not(
    children: Seq<Predicate>,
    data: Json,
    root: Option<Seq<Seq<char>>>,
) -> Result<bool, SpecErr>
    decreases children, 1int,
{
    if children.len() == 0 {
        Ok(true)
    } else {
        match spec_eval_pred(children[0], data, root) {
            Ok(_) => Ok(false),
            Err(_) => spec_eval_not(children.drop_first(), data, root),
        }
    }
}

pub(crate) fn eval_and(children: &Vec<Predicate>, data: &Json, ctx: &PredicateContext) -> (r:
    Result<bool, PredicateError>)
    ensures
        res_view(r) == spec_eval_and(children@, *data, ctx@),
    decreases *children, 1int,
{
    let mut i: usize = 0;
    proof {
        assert(children@.skip(0) =~= children@);
    }
    while i < children.len()
        invariant
            i <= children@.len(),
            spec_eval_and(children@, *data, ctx@) == spec_eval_and(
                children@.skip(i as int),
                *data,
                ctx@,
            ),
        decreases children@.len() - i,
    {
        proof {
            let tl = children@.skip(i as int);
            assert(tl[0] == children@[i as int]);
            assert(tl.drop_first() =~= children@.skip(i + 1));
            assert(decreases_to!(*children => children@));
            assert(decreases_to!(children@ => children@[i as int]));
        }
        match eval_pred(&children[i], data, ctx) {
            Ok(b) => {
                if !b {
                    return Ok(false);
                }
            },
            Err(e) => {
                return Err(e);
            },
        }
        i = i + 1;
    }
    proof {
        assert(children@.skip(children@.len() as int) =~= Seq::<Predicate>::empty());
    }
    Ok(true)
}

pub(crate) fn eval_or(children: &Vec<Predicate>, data: &Json, ctx: &PredicateContext) -> (r: Result<
    bool,
    PredicateError,
>)
    ensures
        res_view(r) == spec_eval_or(children@, *data, ctx@, true),
    decreases *children, 1int,
{
    let mut acc = true;
    let mut i: usize = 0;
    proof {
        assert(children@.skip(0) =~= children@);
    }
    while i < children.len()
        invariant
            i <= children@.len(),
            spec_eval_or(children@, *data, ctx@, true) == spec_eval_or(
                children@.skip(i as int),
                *data,
                ctx@,
                acc,
            ),
        decreases children@.len() - i,
    {
        proof {
            let tl = children@.skip(i as int);
            assert(tl[0] == children@[i as int]);
            assert(tl.drop_first() =~= children@.skip(i + 1));
            assert(decreases_to!(*children => children@));
            assert(decreases_to!(children@ => children@[i as int]));
        }
        match eval_pred(&children[i], data, ctx) {
            Ok(b) => {
                if b {
                    return Ok(true);
                }
            },
            Err(_) => {
                acc = false;
            },
        }
        i = i + 1;
    }
    proof {
        assert(children@.skip(children@.len() as int) =~= Seq::<Predicate>::empty());
    }
    Ok(acc)
}

pub(crate) fn eval_not(children: &Vec<Predicate>, data: &Json, ctx: &PredicateContext) -> (r:
    Result<bool, PredicateError>)
    ensures
        res_view(r) == spec_eval_not(children@, *data, ctx@),
    decreases *children, 1int,
{
    let mut i: usize = 0;
    proof {
        assert(children@.skip(0) =~= children@);
    }
    while i < children.len()
        invariant
            i <= children@.len(),
            spec_eval_not(children@, *data, ctx@) == spec_eval_not(
                children@.skip(i as int),
                *data,
                ctx@,
            ),
        decreases children@.len() - i,
    {
        proof {
            let tl = children@.skip(i as int);
            assert(tl[0] == children@[i as int]);
            assert(tl.drop_first() =~= children@.skip(i + 1));
            assert(decreases_to!(*children => children@));
            assert(decreases_to!(children@ => children@[i as int]));
        }
        match eval_pred(&children[i], data, ctx) {
            Ok(_) => {
                return Ok(false);
            },
            Err(_) => {},
        }
        i = i + 1;
    }
    proof {
        assert(children@.skip(children@.len() as int) =~= Seq::<Predicate>::empty());
    }
    Ok(true)
}

impl PredicateImpl for SecondOrder {
    open spec fn spec_eval(&self, data: Json, root: Option<Seq<Seq<char>>>) -> Result<
        bool,
        SpecErr,
    > {
        match *self {
            SecondOrder::And(a) => a.spec_eval(data, root),
            SecondOrder::Or(o) => o.spec_eval(data, root),
            SecondOrder::Not(n) => n.spec_eval(data, root),
        }
    }

    fn evaluate(&self, data: &Json, ctx: &PredicateContext) -> (r: Result<bool, PredicateError>) {
        match self {
            SecondOrder::And(a) => a.evaluate(data, ctx),
            SecondOrder::Or(o) => o.evaluate(data, ctx),
            SecondOrder::Not(n) => n.evaluate(data, ctx),
        }
    }
}

} // verus!
