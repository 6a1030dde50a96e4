//! Evaluation of one syntax-tree node from its already-evaluated
//! operands: literals become their exact decimal values, operators
//! apply the backend arithmetic, and the built-in functions `min` and
//! `max` fold over their argument list.

use vstd::prelude::*;

use crate::analyzer::token::{BinOps, Kind, KindV, Token, UnOps};
use crate::decimal::{
    add_of, dec_add, dec_div, dec_lt, dec_mul, dec_pow, dec_rem, dec_sub, div_of, mul_of, pow_of,
    rem_of, sub_of,
};
use crate::error::{Error, ErrorV};
use crate::number::{spec_literal, spec_lt, number_from_literal, Number};

verus! {

/// What the backend arithmetic returns for a binary operator on two
/// numbers, or `None` where it reports a fault.
pub open spec fn spec_apply_bin(op: BinOps, a: Number, b: Number) -> Option<Number> {
    match op {
        BinOps::Plus => add_of(a, b),
        BinOps::Minus => sub_of(a, b),
        BinOps::Mult => mul_of(a, b),
        BinOps::Div => div_of(a, b),
        BinOps::Mod => rem_of(a, b),
        BinOps::Pow => pow_of(a, b),
    }
}

/// Whether the name is the built-in `min`.
pub open spec fn is_min_name(s: Seq<char>) -> bool {
    s == seq!['m', 'i', 'n']
}

/// Whether the name is the built-in `max`.
pub open spec fn is_max_name(s: Seq<char>) -> bool {
    s == seq!['m', 'a', 'x']
}

/// Fold a minimum over `vals` from position `i`, keeping the earliest
/// of equal values.
pub open spec fn fold_min(vals: Seq<Number>, i: int, best: Number) -> Number
    decreases vals.len() - i,
{
    if i < 0 || i >= vals.len() {
        best
    } else {
        fold_min(
            vals,
            i + 1,
            if spec_lt(vals[i], best) {
                vals[i]
            } else {
                best
            },
        )
    }
}

/// Fold a maximum over `vals` from position `i`, keeping the earliest
/// of equal values.
pub open spec fn fold_max(vals: Seq<Number>, i: int, best: Number) -> Number
    decreases vals.len() - i,
{
    if i < 0 || i >= vals.len() {
        best
    } else {
        fold_max(
            vals,
            i + 1,
            if spec_lt(best, vals[i]) {
                vals[i]
            } else {
                best
            },
        )
    }
}

/// The smallest of a nonempty argument list, earliest first among
/// equals.
pub open spec fn spec_min(vals: Seq<Number>) -> Number {
    fold_min(vals, 1, vals[0])
}

/// The largest of a nonempty argument list, earliest first among
/// equals.
pub open spec fn spec_max(vals: Seq<Number>) -> Number {
    fold_max(vals, 1, vals[0])
}

/// What one node evaluates to, from its token and the values of its
/// operands: a number literal reads as an exact decimal (a fault if
/// it does not fit the range); a binary or unary operator demands its
/// exact operand count and applies the arithmetic, negation for the
/// prefix minus and identity for the prefix plus; a function must be
/// a built-in with at least one argument. A parenthesis or separator
/// standing as a node is a builder defect and counts as wrong arity.
pub open spec fn spec_apply(t: crate::analyzer::token::TokenV, args: Seq<Number>) -> Result<
    Number,
    ErrorV,
> {
    match t.kind {
        KindV::Number(text) => match spec_literal(text) {
            Some(n) => Ok(n),
            None => Err(ErrorV::ArithmeticFault { line: t.line, column: t.column }),
        },
        KindV::BinaryOperator(op) => if args.len() != 2 {
            Err(ErrorV::WrongArity { line: t.line, column: t.column })
        } else {
            match spec_apply_bin(op, args[0], args[1]) {
                Some(n) => Ok(n),
                None => Err(ErrorV::ArithmeticFault { line: t.line, column: t.column }),
            }
        },
        KindV::UnaryOperator(op) => if args.len() != 1 {
            Err(ErrorV::WrongArity { line: t.line, column: t.column })
        } else {
            match op {
                UnOps::Minus => Ok(args[0].spec_negated()),
                UnOps::Plus => Ok(args[0]),
            }
        },
        KindV::Func(name) => if !is_min_name(name) && !is_max_name(name) {
            Err(ErrorV::UnknownFunction { line: t.line, column: t.column })
        } else if args.len() == 0 {
            Err(ErrorV::WrongArity { line: t.line, column: t.column })
        } else if is_min_name(name) {
            Ok(spec_min(args))
        } else {
            Ok(spec_max(args))
        },
        _ => Err(ErrorV::WrongArity { line: t.line, column: t.column }),
    }
}

/// Evaluate one node from its token and the already-evaluated values
/// of its operands, in their source order.
pub fn evaluate(token: &Token, arguments: &Vec<Number>) -> (r: Result<Number, Error>)
    requires
        forall|i: int| 0 <= i < arguments@.len() ==> (#[trigger] arguments@[i]).wf(),
    ensures
        (r matches Ok(n) ==> spec_apply(token@, arguments@) == Ok::<Number, ErrorV>(n) && n.wf()),
        (r matches Err(e) ==> spec_apply(token@, arguments@) == Err::<Number, ErrorV>(e@)),
        token@.kind == KindV::BinaryOperator(BinOps::Plus) && arguments@.len() == 2
            && arguments@[0].scale == arguments@[1].scale && -crate::number::MAX_MANTISSA
            <= arguments@[0].mantissa + arguments@[1].mantissa <= crate::number::MAX_MANTISSA ==> r
            == Ok::<Number, Error>(
            Number {
                mantissa: (arguments@[0].mantissa + arguments@[1].mantissa) as i128,
                scale: arguments@[0].scale,
            },
        ),
        token@.kind == KindV::BinaryOperator(BinOps::Minus) && arguments@.len() == 2
            && arguments@[0].scale == arguments@[1].scale && -crate::number::MAX_MANTISSA
            <= arguments@[0].mantissa - arguments@[1].mantissa <= crate::number::MAX_MANTISSA ==> r
            == Ok::<Number, Error>(
            Number {
                mantissa: (arguments@[0].mantissa - arguments@[1].mantissa) as i128,
                scale: arguments@[0].scale,
            },
        ),
{
    match &token.kind {
        Kind::Number(text) => match number_from_literal(text) {
            Some(n) => Ok(n),
            None => Err(Error::ArithmeticFault { line: token.line, column: token.column }),
        },
        Kind::BinaryOperator(op) => {
            if arguments.len() != 2 {
                return Err(Error::WrongArity { line: token.line, column: token.column });
            }
            let a = arguments[0];
            let b = arguments[1];
            let res = match op {
                BinOps::Plus => dec_add(&a, &b),
                BinOps::Minus => dec_sub(&a, &b),
                BinOps::Mult => dec_mul(&a, &b),
                BinOps::Div => dec_div(&a, &b),
                BinOps::Mod => dec_rem(&a, &b),
                BinOps::Pow => dec_pow(&a, &b),
            };
            match res {
                Some(n) => Ok(n),
                None => Err(Error::ArithmeticFault { line: token.line, column: token.column }),
            }
        },
        Kind::UnaryOperator(op) => {
            if arguments.len() != 1 {
                return Err(Error::WrongArity { line: token.line, column: token.column });
            }
            match op {
                UnOps::Minus => Ok(arguments[0].negated()),
                UnOps::Plus => Ok(arguments[0]),
            }
        },
        Kind::Func(name) => {
            let is_min = name.len() == 3 && name[0] == 'm' && name[1] == 'i' && name[2] == 'n';
            let is_max = name.len() == 3 && name[0] == 'm' && name[1] == 'a' && name[2] == 'x';
            proof {
                assert(is_min == is_min_name(name@)) by {
                    if name@.len() == 3 && name@[0] == 'm' && name@[1] == 'i' && name@[2] == 'n' {
                        assert(name@ =~= seq!['m', 'i', 'n']);
                    }
                    if name@ == seq!['m', 'i', 'n'] {
                        assert(name@.len() == 3);
                    }
                }
                assert(is_max == is_max_name(name@)) by {
                    if name@.len() == 3 && name@[0] == 'm' && name@[1] == 'a' && name@[2] == 'x' {
                        assert(name@ =~= seq!['m', 'a', 'x']);
                    }
                    if name@ == seq!['m', 'a', 'x'] {
                        assert(name@.len() == 3);
                    }
                }
            }
            if !is_min && !is_max {
                return Err(Error::UnknownFunction { line: token.line, column: token.column });
            }
            if arguments.len() == 0 {
                return Err(Error::WrongArity { line: token.line, column: token.column });
            }
            let mut best = arguments[0];
            let mut i: usize = 1;
            if is_min {
                while i < arguments.len()
                    invariant
                        1 <= i <= arguments@.len(),
                        arguments@.len() >= 1,
                        forall|k: int|
                            0 <= k < arguments@.len() ==> (#[trigger] arguments@[k]).wf(),
                        best.wf(),
                        fold_min(arguments@, i as int, best) == spec_min(arguments@),
                    decreases arguments@.len() - i,
                {
                    if dec_lt(&arguments[i], &best) {
                        best = arguments[i];
                    }
                    i = i + 1;
                }
                Ok(best)
            } else {
                while i < arguments.len()
                    invariant
                        1 <= i <= arguments@.len(),
                        arguments@.len() >= 1,
                        forall|k: int|
                            0 <= k < arguments@.len() ==> (#[trigger] arguments@[k]).wf(),
                        best.wf(),
                        fold_max(arguments@, i as int, best) == spec_max(arguments@),
                    decreases arguments@.len() - i,
                {
                    if dec_lt(&best, &arguments[i]) {
                        best = arguments[i];
                    }
                    i = i + 1;
                }
                Ok(best)
            }
        },
        Kind::Parenthesis(_) => Err(Error::WrongArity { line: token.line, column: token.column }),
        Kind::Delimiter(_) => Err(Error::WrongArity { line: token.line, column: token.column }),
    }
}

} // verus!
