//! The shunting-yard reorderer and the parser built on it: tokens go
//! in infix order, come out in Reverse Polish order over a side stack
//! of operators, and the tree builder then turns the queue into a
//! syntax tree. Bare `+` and `-` are resolved here to unary operators
//! when they stand where no left operand can exist.

use vstd::prelude::*;

use crate::analyzer::syntax_tree::{spec_build, SyntaxTree};
use crate::analyzer::token::{
    spec_delim_token, spec_rank, spec_unary_token, toks_view, Associativity, BinOps, Delim, Kind,
    KindV, Paren, Token, TokenV, UnOps,
};
use crate::error::{Error, ErrorV};

verus! {

/// Whether a `+` or `-` here is a prefix sign: at the very start of
/// the input, or right after an operator or an opening parenthesis.
pub open spec fn unary_position(prev: Option<TokenV>) -> bool {
    match prev {
        None => true,
        Some(p) => match p.kind {
            KindV::BinaryOperator(_) => true,
            KindV::UnaryOperator(_) => true,
            KindV::Parenthesis(Paren::Open) => true,
            _ => false,
        },
    }
}

/// Pop operators to the output while the stack's top binds tighter
/// than the incoming operator, or equally tight when the incoming
/// operator groups to the left.
pub open spec fn pop_for_operator(stack: Seq<TokenV>, queue: Seq<TokenV>, t: TokenV) -> (
    Seq<TokenV>,
    Seq<TokenV>,
)
    decreases stack.len(),
{
    if stack.len() == 0 {
        (stack, queue)
    } else {
        let top = stack.last();
        if spec_rank(top.prec) > spec_rank(t.prec) || (spec_rank(top.prec) == spec_rank(t.prec)
            && t.assoc == Associativity::Left) {
            pop_for_operator(stack.drop_last(), queue.push(top), t)
        } else {
            (stack, queue)
        }
    }
}

/// Pop operators to the output for a comma: everything above the
/// opening parenthesis of the surrounding call, since no operator's
/// precedence is below the comma's.
pub open spec fn pop_for_comma(stack: Seq<TokenV>, queue: Seq<TokenV>, t: TokenV) -> (
    Seq<TokenV>,
    Seq<TokenV>,
)
    decreases stack.len(),
{
    if stack.len() == 0 {
        (stack, queue)
    } else {
        let top = stack.last();
        if !(top.kind matches KindV::Parenthesis(Paren::Open)) && spec_rank(top.prec) >= spec_rank(
            t.prec,
        ) {
            pop_for_comma(stack.drop_last(), queue.push(top), t)
        } else {
            (stack, queue)
        }
    }
}

/// Pop operators to the output until an opening parenthesis is on
/// top; discard that parenthesis. `None` when the stack runs out
/// first: the closing parenthesis was unmatched.
pub open spec fn pop_to_open(stack: Seq<TokenV>, queue: Seq<TokenV>) -> Option<
    (Seq<TokenV>, Seq<TokenV>),
>
    decreases stack.len(),
{
    if stack.len() == 0 {
        None
    } else {
        let top = stack.last();
        if top.kind matches KindV::Parenthesis(Paren::Open) {
            Some((stack.drop_last(), queue))
        } else {
            pop_to_open(stack.drop_last(), queue.push(top))
        }
    }
}

/// Empty the stack into the output at end of input. A leftover
/// opening parenthesis is fatal, at its own position.
pub open spec fn drain_stack(stack: Seq<TokenV>, queue: Seq<TokenV>) -> Result<Seq<TokenV>, ErrorV>
    decreases stack.len(),
{
    if stack.len() == 0 {
        Ok(queue)
    } else {
        let top = stack.last();
        if top.kind matches KindV::Parenthesis(Paren::Open) {
            Err(ErrorV::UnmatchedParenthesis { line: top.line, column: top.column })
        } else {
            drain_stack(stack.drop_last(), queue.push(top))
        }
    }
}

/// One reordering step per input token, taken from the front of
/// `rem`: numbers go to the output; a function pushes an argument-end
/// marker to the output and itself onto the stack; parentheses open
/// on the stack and close by emptying down to their partner; a comma
/// drains the surrounding call's operators; an operator is first
/// resolved unary or binary by its position, then placed by
/// precedence. `prev` is the previous input token.
pub open spec fn rp_rec(
    stack: Seq<TokenV>,
    queue: Seq<TokenV>,
    prev: Option<TokenV>,
    rem: Seq<TokenV>,
) -> Result<Seq<TokenV>, ErrorV>
    decreases rem.len(),
{
    if rem.len() == 0 {
        drain_stack(stack, queue)
    } else {
        let t = rem.first();
        let rest = rem.drop_first();
        match t.kind {
            KindV::Number(_) => rp_rec(stack, queue.push(t), Some(t), rest),
            KindV::Func(_) => rp_rec(
                stack.push(t),
                queue.push(spec_delim_token(Delim::FuncArgs, 0, 0)),
                Some(t),
                rest,
            ),
            KindV::Parenthesis(Paren::Open) => rp_rec(stack.push(t), queue, Some(t), rest),
            KindV::Parenthesis(Paren::Close) => match pop_to_open(stack, queue) {
                None => Err(ErrorV::UnmatchedParenthesis { line: t.line, column: t.column }),
                Some(sq) => {
                    if sq.0.len() > 0 && (sq.0.last().kind matches KindV::Func(_)) {
                        rp_rec(sq.0.drop_last(), sq.1.push(sq.0.last()), Some(t), rest)
                    } else {
                        rp_rec(sq.0, sq.1, Some(t), rest)
                    }
                },
            },
            KindV::Delimiter(Delim::Comma) => {
                let sq = pop_for_comma(stack, queue, t);
                rp_rec(sq.0, sq.1, Some(t), rest)
            },
            KindV::BinaryOperator(op) => {
                if unary_position(prev) {
                    if op == BinOps::Plus || op == BinOps::Minus {
                        let u = spec_unary_token(
                            if op == BinOps::Plus {
                                UnOps::Plus
                            } else {
                                UnOps::Minus
                            },
                            t.line,
                            t.column,
                        );
                        let sq = pop_for_operator(stack, queue, u);
                        rp_rec(sq.0.push(u), sq.1, Some(t), rest)
                    } else {
                        Err(ErrorV::InvalidInfixOperator { line: t.line, column: t.column })
                    }
                } else {
                    let sq = pop_for_operator(stack, queue, t);
                    rp_rec(sq.0.push(t), sq.1, Some(t), rest)
                }
            },
            KindV::UnaryOperator(_) => {
                let sq = pop_for_operator(stack, queue, t);
                rp_rec(sq.0.push(t), sq.1, Some(t), rest)
            },
            KindV::Delimiter(Delim::FuncArgs) => rp_rec(stack, queue.push(t), Some(t), rest),
        }
    }
}

/// The Reverse Polish order of a token sequence, by the shunting-yard
/// method, or the first fault found while reordering.
pub open spec fn spec_reverse_polish(toks: Seq<TokenV>) -> Result<Seq<TokenV>, ErrorV> {
    rp_rec(Seq::empty(), Seq::empty(), None, toks)
}

/// Place an operator: pop while the top of the stack binds tighter
/// (or equally tight, for a left-grouping incoming operator), then
/// push the operator.
fn put_operator(stack: &mut Vec<Token>, queue: &mut Vec<Token>, op_token: Token)
    ensures
        ({
            let sq = pop_for_operator(toks_view(old(stack)@), toks_view(old(queue)@), op_token@);
            toks_view(final(stack)@) == sq.0.push(op_token@) && toks_view(final(queue)@) == sq.1
        }),
{
    let ghost sv0 = toks_view(stack@);
    let ghost qv0 = toks_view(queue@);
    loop
        invariant_except_break
            pop_for_operator(toks_view(stack@), toks_view(queue@), op_token@) == pop_for_operator(
                sv0,
                qv0,
                op_token@,
            ),
        ensures
            pop_for_operator(sv0, qv0, op_token@) == (toks_view(stack@), toks_view(queue@)),
        decreases stack@.len(),
    {
        let n = stack.len();
        if n == 0 {
            break ;
        }
        let pops = {
            let top = &stack[n - 1];
            let tr = top.prec.rank();
            let ir = op_token.prec.rank();
            tr > ir || (tr == ir && op_token.assoc == Associativity::Left)
        };
        if !pops {
            proof {
                assert(pop_for_operator(toks_view(stack@), toks_view(queue@), op_token@) == (
                    toks_view(stack@),
                    toks_view(queue@),
                ));
            }
            break ;
        }
        let ghost sv = toks_view(stack@);
        let ghost qv = toks_view(queue@);
        let tok = stack.pop().unwrap();
        queue.push(tok);
        proof {
            assert(toks_view(stack@) =~= sv.drop_last());
            assert(toks_view(queue@) =~= qv.push(sv.last()));
        }
    }
    let ghost sv = toks_view(stack@);
    stack.push(op_token);
    proof {
        assert(toks_view(stack@) =~= sv.push(op_token@));
    }
}

/// Place a comma: pop the surrounding call's operators, everything
/// down to the opening parenthesis. The comma itself is discarded.
fn put_separator(stack: &mut Vec<Token>, queue: &mut Vec<Token>, sep_token: Token)
    ensures
        ({
            let sq = pop_for_comma(toks_view(old(stack)@), toks_view(old(queue)@), sep_token@);
            toks_view(final(stack)@) == sq.0 && toks_view(final(queue)@) == sq.1
        }),
{
    let ghost sv0 = toks_view(stack@);
    let ghost qv0 = toks_view(queue@);
    loop
        invariant_except_break
            pop_for_comma(toks_view(stack@), toks_view(queue@), sep_token@) == pop_for_comma(
                sv0,
                qv0,
                sep_token@,
            ),
        ensures
            pop_for_comma(sv0, qv0, sep_token@) == (toks_view(stack@), toks_view(queue@)),
        decreases stack@.len(),
    {
        let n = stack.len();
        if n == 0 {
            break ;
        }
        let pops = {
            let top = &stack[n - 1];
            !matches!(top.kind, Kind::Parenthesis(Paren::Open)) && top.prec.rank()
                >= sep_token.prec.rank()
        };
        if !pops {
            break ;
        }
        let ghost sv = toks_view(stack@);
        let ghost qv = toks_view(queue@);
        let tok = stack.pop().unwrap();
        queue.push(tok);
        proof {
            assert(toks_view(stack@) =~= sv.drop_last());
            assert(toks_view(queue@) =~= qv.push(sv.last()));
        }
    }
}

/// Place a function: an argument-end marker goes to the output ahead
/// of the call's arguments, and the function itself waits on the
/// stack for its closing parenthesis.
fn put_function(stack: &mut Vec<Token>, queue: &mut Vec<Token>, fn_token: Token)
    ensures
        toks_view(final(stack)@) == toks_view(old(stack)@).push(fn_token@),
        toks_view(final(queue)@) == toks_view(old(queue)@).push(
            spec_delim_token(Delim::FuncArgs, 0, 0),
        ),
{
    let ghost sv = toks_view(stack@);
    let ghost qv = toks_view(queue@);
    queue.push(Token::util_delimiter(Delim::FuncArgs));
    stack.push(fn_token);
    proof {
        assert(toks_view(stack@) =~= sv.push(fn_token@));
        assert(toks_view(queue@) =~= qv.push(spec_delim_token(Delim::FuncArgs, 0, 0)));
    }
}

/// Place a closing parenthesis: pop the stack to the output down to
/// the matching opening parenthesis and discard that parenthesis,
/// failing if the stack empties first; then, if a function is on top,
/// pop it to the output, closing the call.
fn put_right_parenthesis(stack: &mut Vec<Token>, queue: &mut Vec<Token>, t: &Token) -> (r: Result<
    (),
    Error,
>)
    ensures
        match pop_to_open(toks_view(old(stack)@), toks_view(old(queue)@)) {
            None => r matches Err(e) && e@ == (ErrorV::UnmatchedParenthesis {
                line: t@.line,
                column: t@.column,
            }),
            Some(sq) => r is Ok && if sq.0.len() > 0 && (sq.0.last().kind matches KindV::Func(_)) {
                toks_view(final(stack)@) == sq.0.drop_last() && toks_view(final(queue)@)
                    == sq.1.push(sq.0.last())
            } else {
                toks_view(final(stack)@) == sq.0 && toks_view(final(queue)@) == sq.1
            },
        },
{
    let ghost sv0 = toks_view(stack@);
    let ghost qv0 = toks_view(queue@);
    let mut found = false;
    loop
        invariant_except_break
            !found,
            pop_to_open(toks_view(stack@), toks_view(queue@)) == pop_to_open(sv0, qv0),
        ensures
            found ==> pop_to_open(sv0, qv0) == Some((toks_view(stack@), toks_view(queue@))),
            !found ==> stack@.len() == 0 && pop_to_open(sv0, qv0) is None,
        decreases stack@.len(),
    {
        let n = stack.len();
        if n == 0 {
            break ;
        }
        let is_open = matches!(stack[n - 1].kind, Kind::Parenthesis(Paren::Open));
        let ghost sv = toks_view(stack@);
        let ghost qv = toks_view(queue@);
        if is_open {
            stack.pop();
            found = true;
            proof {
                assert(toks_view(stack@) =~= sv.drop_last());
            }
            break ;
        } else {
            let tok = stack.pop().unwrap();
            queue.push(tok);
            proof {
                assert(toks_view(stack@) =~= sv.drop_last());
                assert(toks_view(queue@) =~= qv.push(sv.last()));
            }
        }
    }
    if !found {
        return Err(Error::UnmatchedParenthesis { line: t.line, column: t.column });
    }
    let n = stack.len();
    if n > 0 && matches!(stack[n - 1].kind, Kind::Func(_)) {
        let ghost sv = toks_view(stack@);
        let ghost qv = toks_view(queue@);
        let tok = stack.pop().unwrap();
        queue.push(tok);
        proof {
            assert(toks_view(stack@) =~= sv.drop_last());
            assert(toks_view(queue@) =~= qv.push(sv.last()));
        }
    }
    Ok(())
}

/// Reorder an infix token sequence into Reverse Polish order with the
/// shunting-yard method, resolving bare `+` and `-` into prefix signs
/// where they stand in a prefix position. Fails on an unmatched
/// parenthesis, and on any other operator standing where only a
/// prefix sign could.
pub fn reverse_polish(tokens: Vec<Token>) -> (r: Result<Vec<Token>, Error>)
    ensures
        (r matches Ok(q) ==> spec_reverse_polish(toks_view(tokens@)) == Ok::<Seq<TokenV>, ErrorV>(
            toks_view(q@),
        )),
        (r matches Err(e) ==> spec_reverse_polish(toks_view(tokens@)) == Err::<Seq<TokenV>, ErrorV>(
            e@,
        )),
{
    let ghost toks0 = toks_view(tokens@);
    let mut tokens = tokens;
    let mut stack: Vec<Token> = Vec::new();
    let mut queue: Vec<Token> = Vec::new();
    let mut unary_pos = true;
    let mut res_err: Option<Error> = None;
    let ghost mut prev: Option<TokenV> = None;
    proof {
        assert(toks_view(stack@) =~= Seq::<TokenV>::empty());
        assert(toks_view(queue@) =~= Seq::<TokenV>::empty());
    }
    while tokens.len() > 0
        invariant_except_break
            res_err is None,
            rp_rec(toks_view(stack@), toks_view(queue@), prev, toks_view(tokens@))
                == spec_reverse_polish(toks0),
            unary_pos == unary_position(prev),
        ensures
            match res_err {
                Some(e) => spec_reverse_polish(toks0) == Err::<Seq<TokenV>, ErrorV>(e@),
                None => tokens@.len() == 0 && rp_rec(
                    toks_view(stack@),
                    toks_view(queue@),
                    prev,
                    toks_view(tokens@),
                ) == spec_reverse_polish(toks0),
            },
        decreases tokens@.len(),
    {
        let ghost sv = toks_view(stack@);
        let ghost qv = toks_view(queue@);
        let ghost rv = toks_view(tokens@);
        let t = tokens.remove(0);
        proof {
            assert(t@ == rv.first());
            assert(toks_view(tokens@) =~= rv.drop_first());
        }
        let ghost tv = t@;
        let next_unary = matches!(
            t.kind,
            Kind::BinaryOperator(_) | Kind::UnaryOperator(_) | Kind::Parenthesis(Paren::Open)
        );
        match &t.kind {
            Kind::Number(_) => {
                queue.push(t);
                proof {
                    assert(toks_view(queue@) =~= qv.push(tv));
                }
            },
            Kind::Func(_) => {
                put_function(&mut stack, &mut queue, t);
            },
            Kind::Parenthesis(p) => {
                if matches!(p, Paren::Open) {
                    stack.push(t);
                    proof {
                        assert(toks_view(stack@) =~= sv.push(tv));
                    }
                } else {
                    match put_right_parenthesis(&mut stack, &mut queue, &t) {
                        Ok(_) => {},
                        Err(e) => {
                            proof {
                                assert(pop_to_open(sv, qv) is None);
                                assert(spec_reverse_polish(toks0) == Err::<Seq<TokenV>, ErrorV>(
                                    e@,
                                ));
                            }
                            res_err = Some(e);
                            break ;
                        },
                    }
                }
            },
            Kind::Delimiter(d) => {
                if matches!(d, Delim::Comma) {
                    put_separator(&mut stack, &mut queue, t);
                } else {
                    queue.push(t);
                    proof {
                        assert(toks_view(queue@) =~= qv.push(tv));
                    }
                }
            },
            Kind::BinaryOperator(op) => {
                if unary_pos {
                    let is_plus = matches!(op, BinOps::Plus);
                    let is_minus = matches!(op, BinOps::Minus);
                    if is_plus || is_minus {
                        let u = Token {
                            assoc: Associativity::Right,
                            prec: crate::analyzer::token::Precedence::OperatorUnary,
                            kind: Kind::UnaryOperator(
                                if is_plus {
                                    UnOps::Plus
                                } else {
                                    UnOps::Minus
                                },
                            ),
                            line: t.line,
                            column: t.column,
                        };
                        proof {
                            if is_plus {
                                assert(u@ == spec_unary_token(UnOps::Plus, tv.line, tv.column));
                            } else {
                                assert(u@ == spec_unary_token(UnOps::Minus, tv.line, tv.column));
                            }
                        }
                        put_operator(&mut stack, &mut queue, u);
                    } else {
                        proof {
                            assert(spec_reverse_polish(toks0) == Err::<Seq<TokenV>, ErrorV>(
                                (ErrorV::InvalidInfixOperator {
                                    line: tv.line,
                                    column: tv.column,
                                }),
                            ));
                        }
                        res_err = Some(
                            Error::InvalidInfixOperator { line: t.line, column: t.column },
                        );
                        break ;
                    }
                } else {
                    put_operator(&mut stack, &mut queue, t);
                }
            },
            Kind::UnaryOperator(_) => {
                put_operator(&mut stack, &mut queue, t);
            },
        }
        proof {
            prev = Some(tv);
        }
        unary_pos = next_unary;
    }
    if let Some(e) = res_err {
        return Err(e);
    }
    proof {
        assert(toks_view(tokens@) =~= Seq::<TokenV>::empty());
    }
    let mut out_err: Option<Error> = None;
    while stack.len() > 0
        invariant_except_break
            out_err is None,
            drain_stack(toks_view(stack@), toks_view(queue@)) == spec_reverse_polish(toks0),
        ensures
            match out_err {
                Some(e) => spec_reverse_polish(toks0) == Err::<Seq<TokenV>, ErrorV>(e@),
                None => stack@.len() == 0 && spec_reverse_polish(toks0) == Ok::<
                    Seq<TokenV>,
                    ErrorV,
                >(toks_view(queue@)),
            },
        decreases stack@.len(),
    {
        let n = stack.len();
        let is_open = matches!(stack[n - 1].kind, Kind::Parenthesis(Paren::Open));
        let ghost sv = toks_view(stack@);
        let ghost qv = toks_view(queue@);
        if is_open {
            let top = &stack[n - 1];
            out_err = Some(Error::UnmatchedParenthesis { line: top.line, column: top.column });
            break ;
        }
        let tok = stack.pop().unwrap();
        queue.push(tok);
        proof {
            assert(toks_view(stack@) =~= sv.drop_last());
            assert(toks_view(queue@) =~= qv.push(sv.last()));
        }
    }
    match out_err {
        Some(e) => Err(e),
        None => Ok(queue),
    }
}

/// Compile a token sequence into a syntax tree: reorder it into
/// Reverse Polish order, then build the tree from the queue.
pub fn parse(tokens: Vec<Token>) -> (r: Result<SyntaxTree, Error>)
    ensures
        match spec_reverse_polish(toks_view(tokens@)) {
            Ok(q) => if q.len() == 0 {
                r matches Err(e) && e == Error::EmptyExpression
            } else {
                (r matches Ok(t) && t@ == Some(spec_build(q)))
            },
            Err(e) => r matches Err(e2) && e2@ == e,
        },
{
    let queue = match reverse_polish(tokens) {
        Ok(q) => q,
        Err(e) => {
            return Err(e);
        },
    };
    SyntaxTree::build(queue)
}

} // verus!
