//! Laws of the semantic pass, stated over the mathematical trees and
//! proved once for every input: simplification is idempotent, it
//! preserves every evaluation result, and it leaves no prefix plus
//! behind in a validated tree.

use vstd::prelude::*;

use crate::analyzer::semantic_analyzer::{
    arity_fault, arity_fault_list, opt_ast, opt_list, lemma_opt_list, toggle_sign,
};
use crate::analyzer::syntax_tree::Ast;
use crate::analyzer::token::{KindV, UnOps};
use crate::error::ErrorV;
use crate::interpreter::interpreter::{eval_args, eval_ast};
use crate::number::{
    lemma_lit_scan_mono, lemma_lit_scan_shift, spec_literal, Number,
};

verus! {

/// A subtree the simplifier leaves unchanged: no prefix plus with its
/// one operand, no prefix minus directly over another prefix minus or
/// over a number literal, and the same all the way down.
pub open spec fn optimized(a: Ast) -> bool
    decreases a,
{
    &&& !(a.token.kind matches KindV::UnaryOperator(UnOps::Plus) && a.children.len() == 1)
    &&& (a.token.kind matches KindV::UnaryOperator(UnOps::Minus) && a.children.len() == 1
        ==> !(a.children[0].token.kind matches KindV::UnaryOperator(UnOps::Minus)
        && a.children[0].children.len() == 1) && !(a.children[0].token.kind matches KindV::Number(
        _,
    )))
    &&& optimized_list(a.children)
}

/// Every subtree of the list is in simplified form.
pub open spec fn optimized_list(cs: Seq<Ast>) -> bool
    decreases cs,
{
    if cs.len() == 0 {
        true
    } else {
        optimized_list(cs.drop_last()) && optimized(cs.last())
    }
}

/// A list is in simplified form exactly when each of its members is.
proof fn lemma_optimized_list_index(cs: Seq<Ast>)
    requires
        optimized_list(cs),
    ensures
        forall|i: int| 0 <= i < cs.len() ==> optimized(#[trigger] cs[i]),
    decreases cs,
{
    if cs.len() > 0 {
        lemma_optimized_list_index(cs.drop_last());
        assert forall|i: int| 0 <= i < cs.len() implies optimized(#[trigger] cs[i]) by {
            if i < cs.len() - 1 {
                assert(cs.drop_last()[i] == cs[i]);
            } else {
                assert(cs.last() == cs[i]);
            }
        }
    }
}

/// Each member in simplified form makes the list so.
proof fn lemma_optimized_list_build(cs: Seq<Ast>)
    requires
        forall|i: int| 0 <= i < cs.len() ==> optimized(#[trigger] cs[i]),
    ensures
        optimized_list(cs),
    decreases cs,
{
    if cs.len() > 0 {
        assert forall|i: int| 0 <= i < cs.drop_last().len() implies optimized(
            #[trigger] cs.drop_last()[i],
        ) by {
            assert(cs.drop_last()[i] == cs[i]);
        }
        lemma_optimized_list_build(cs.drop_last());
        assert(cs.last() == cs[cs.len() - 1]);
    }
}

/// The simplifier's output is always in simplified form.
proof fn lemma_opt_optimized(a: Ast)
    ensures
        optimized(opt_ast(a)),
    decreases a,
{
    match a.token.kind {
        KindV::UnaryOperator(UnOps::Plus) => {
            if a.children.len() == 1 {
                lemma_opt_optimized(a.children[0]);
            } else {
                lemma_opt_list(a.children);
                lemma_opt_optimized_list(a.children);
            }
        },
        KindV::UnaryOperator(UnOps::Minus) => {
            if a.children.len() == 1 {
                lemma_opt_optimized(a.children[0]);
                let c = opt_ast(a.children[0]);
                if c.token.kind matches KindV::UnaryOperator(UnOps::Minus) && c.children.len()
                    == 1 {
                    lemma_optimized_list_index(c.children);
                } else if c.token.kind matches KindV::Number(_) {
                    assert(optimized_list(Seq::<Ast>::empty()));
                } else {
                    assert(seq![c].len() == 1);
                    assert(seq![c].drop_last() =~= Seq::<Ast>::empty());
                    assert(optimized_list(seq![c].drop_last()));
                    assert(seq![c].last() == c);
                    assert(optimized_list(seq![c]));
                    assert(seq![c][0] == c);
                }
            } else {
                lemma_opt_list(a.children);
                lemma_opt_optimized_list(a.children);
            }
        },
        _ => {
            lemma_opt_list(a.children);
            lemma_opt_optimized_list(a.children);
        },
    }
}

/// The simplifier's output on a list is in simplified form, member by
/// member.
proof fn lemma_opt_optimized_list(cs: Seq<Ast>)
    ensures
        optimized_list(opt_list(cs)),
    decreases cs,
{
    lemma_opt_list(cs);
    assert forall|i: int| 0 <= i < opt_list(cs).len() implies optimized(
        #[trigger] opt_list(cs)[i],
    ) by {
        lemma_opt_optimized(cs[i]);
    }
    lemma_optimized_list_build(opt_list(cs));
}

/// A subtree already in simplified form is the simplifier's fixed
/// point.
proof fn lemma_optimized_fixpoint(a: Ast)
    requires
        optimized(a),
    ensures
        opt_ast(a) == a,
    decreases a,
{
    lemma_optimized_list_index(a.children);
    match a.token.kind {
        KindV::UnaryOperator(UnOps::Plus) => {
            lemma_optimized_fixpoint_list(a.children);
        },
        KindV::UnaryOperator(UnOps::Minus) => {
            if a.children.len() == 1 {
                lemma_optimized_fixpoint(a.children[0]);
                let c = opt_ast(a.children[0]);
                assert(c == a.children[0]);
                assert(seq![c] =~= a.children);
            } else {
                lemma_optimized_fixpoint_list(a.children);
            }
        },
        _ => {
            lemma_optimized_fixpoint_list(a.children);
        },
    }
}

/// A list of subtrees in simplified form is mapped to itself.
proof fn lemma_optimized_fixpoint_list(cs: Seq<Ast>)
    requires
        optimized_list(cs),
    ensures
        opt_list(cs) == cs,
    decreases cs,
{
    lemma_opt_list(cs);
    lemma_optimized_list_index(cs);
    assert forall|i: int| 0 <= i < cs.len() implies opt_list(cs)[i] == cs[i] by {
        lemma_optimized_fixpoint(cs[i]);
    }
    assert(opt_list(cs) =~= cs);
}

/// Simplification is idempotent: simplifying an already-simplified
/// tree changes nothing, so one pass reaches the fixed point.
pub proof fn lemma_opimize_idempotent(a: Ast)
    ensures
        opt_ast(opt_ast(a)) == opt_ast(a),
{
    lemma_opt_optimized(a);
    lemma_optimized_fixpoint(opt_ast(a));
}

/// Every number literal in the tree is a plain leaf: no operand
/// subtrees, and no sign of its own in the text. The lexer only emits
/// such literals.
pub open spec fn literals_plain(a: Ast) -> bool
    decreases a,
{
    &&& (a.token.kind matches KindV::Number(text) ==> a.children.len() == 0 && (text.len() == 0
        || text[0] != '-'))
    &&& literals_plain_list(a.children)
}

/// Every number literal in every subtree of the list is a plain leaf.
pub open spec fn literals_plain_list(cs: Seq<Ast>) -> bool
    decreases cs,
{
    if cs.len() == 0 {
        true
    } else {
        literals_plain_list(cs.drop_last()) && literals_plain(cs.last())
    }
}

/// Every number literal in the tree is a leaf whose text carries at
/// most one leading sign. The sign fold keeps trees in this shape.
pub open spec fn literals_signed(a: Ast) -> bool
    decreases a,
{
    &&& (a.token.kind matches KindV::Number(text) ==> a.children.len() == 0 && (text.len() < 2
        || text[0] != '-' || text[1] != '-'))
    &&& literals_signed_list(a.children)
}

/// Every number literal in every subtree of the list is a singly
/// signed leaf.
pub open spec fn literals_signed_list(cs: Seq<Ast>) -> bool
    decreases cs,
{
    if cs.len() == 0 {
        true
    } else {
        literals_signed_list(cs.drop_last()) && literals_signed(cs.last())
    }
}

/// A plain-literal list is plain member by member.
proof fn lemma_plain_list_index(cs: Seq<Ast>)
    requires
        literals_plain_list(cs),
    ensures
        forall|i: int| 0 <= i < cs.len() ==> literals_plain(#[trigger] cs[i]),
    decreases cs,
{
    if cs.len() > 0 {
        lemma_plain_list_index(cs.drop_last());
        assert forall|i: int| 0 <= i < cs.len() implies literals_plain(#[trigger] cs[i]) by {
            if i < cs.len() - 1 {
                assert(cs.drop_last()[i] == cs[i]);
            } else {
                assert(cs.last() == cs[i]);
            }
        }
    }
}

/// A signed-literal list is signed member by member.
proof fn lemma_signed_list_index(cs: Seq<Ast>)
    requires
        literals_signed_list(cs),
    ensures
        forall|i: int| 0 <= i < cs.len() ==> literals_signed(#[trigger] cs[i]),
    decreases cs,
{
    if cs.len() > 0 {
        lemma_signed_list_index(cs.drop_last());
        assert forall|i: int| 0 <= i < cs.len() implies literals_signed(#[trigger] cs[i]) by {
            if i < cs.len() - 1 {
                assert(cs.drop_last()[i] == cs[i]);
            } else {
                assert(cs.last() == cs[i]);
            }
        }
    }
}

/// Signed members make a signed list.
proof fn lemma_signed_list_build(cs: Seq<Ast>)
    requires
        forall|i: int| 0 <= i < cs.len() ==> literals_signed(#[trigger] cs[i]),
    ensures
        literals_signed_list(cs),
    decreases cs,
{
    if cs.len() > 0 {
        assert forall|i: int| 0 <= i < cs.drop_last().len() implies literals_signed(
            #[trigger] cs.drop_last()[i],
        ) by {
            assert(cs.drop_last()[i] == cs[i]);
        }
        lemma_signed_list_build(cs.drop_last());
        assert(cs.last() == cs[cs.len() - 1]);
    }
}

/// Evaluating a one-member list evaluates the member.
proof fn lemma_eval_args_single(x: Ast)
    ensures
        eval_args(seq![x]) == (match eval_ast(x) {
            Ok(v) => Ok::<Seq<Number>, ErrorV>(seq![v]),
            Err(e) => Err::<Seq<Number>, ErrorV>(e),
        }),
{
    assert(eval_args(Seq::<Ast>::empty()) == Ok::<Seq<Number>, ErrorV>(Seq::empty()));
    assert(seq![x].drop_last() =~= Seq::<Ast>::empty());
    assert(seq![x].last() == x);
    assert(seq![x].len() == 1);
    match eval_ast(x) {
        Ok(v) => {
            assert(Seq::<Number>::empty().push(v) =~= seq![v]);
        },
        Err(_) => {},
    }
}

/// Toggling the sign of a singly signed literal text negates its
/// value exactly, and fails exactly where the text itself fails.
proof fn lemma_literal_toggle(t: Seq<char>)
    requires
        t.len() < 2 || t[0] != '-' || t[1] != '-',
    ensures
        spec_literal(toggle_sign(t)) == (match spec_literal(t) {
            Some(n) => Some(n.spec_negated()),
            None => None::<Number>,
        }),
{
    if t.len() > 0 && t[0] == '-' {
        let u = t.drop_first();
        lemma_lit_scan_shift(t, 0, 0, 0, false, false);
        lemma_lit_scan_mono(u, 0, 0, 0, false, false);
        assert(!(u.len() > 0 && u[0] == '-'));
    } else {
        let v = toggle_sign(t);
        assert(v.drop_first() =~= t);
        assert(v[0] == '-');
        lemma_lit_scan_shift(v, 0, 0, 0, false, false);
        lemma_lit_scan_mono(t, 0, 0, 0, false, false);
    }
}

/// Simplification preserves evaluation: on a tree whose number
/// literals are plain leaves — as the builder produces from the
/// lexer's tokens — the simplified tree evaluates to the same result,
/// fault for fault; and its literals stay singly signed leaves.
pub proof fn lemma_opimize_preserves_value(a: Ast)
    requires
        literals_plain(a),
    ensures
        eval_ast(opt_ast(a)) == eval_ast(a),
        literals_signed(opt_ast(a)),
    decreases a,
{
    lemma_plain_list_index(a.children);
    match a.token.kind {
        KindV::UnaryOperator(UnOps::Plus) => {
            if a.children.len() == 1 {
                let x = a.children[0];
                lemma_opimize_preserves_value(x);
                assert(a.children =~= seq![x]);
                lemma_eval_args_single(x);
            } else {
                lemma_generic_case(a);
            }
        },
        KindV::UnaryOperator(UnOps::Minus) => {
            if a.children.len() == 1 {
                let x = a.children[0];
                lemma_opimize_preserves_value(x);
                let c = opt_ast(x);
                assert(a.children =~= seq![x]);
                lemma_eval_args_single(x);
                if c.token.kind matches KindV::UnaryOperator(UnOps::Minus) && c.children.len()
                    == 1 {
                    let g = c.children[0];
                    assert(c.children =~= seq![g]);
                    lemma_eval_args_single(g);
                    lemma_signed_list_index(c.children);
                    assert(literals_signed(g));
                    match eval_ast(g) {
                        Ok(w) => {
                            w.lemma_negated_involutive();
                        },
                        Err(_) => {},
                    }
                } else if c.token.kind matches KindV::Number(_) {
                    let text = c.token.kind->Number_0;
                    assert(c.children.len() == 0);
                    assert(c.children =~= Seq::<Ast>::empty());
                    lemma_literal_toggle(text);
                    let r = opt_ast(a);
                    assert(r.children =~= Seq::<Ast>::empty());
                } else {
                    let r = opt_ast(a);
                    assert(r.children =~= seq![c]);
                    lemma_eval_args_single(c);
                    assert(seq![c].drop_last() =~= Seq::<Ast>::empty());
                    assert(literals_signed_list(seq![c].drop_last()));
                    assert(seq![c].last() == c);
                    assert(literals_signed_list(seq![c]));
                }
            } else {
                lemma_generic_case(a);
            }
        },
        _ => {
            lemma_generic_case(a);
        },
    }
}

/// The shared argument for every node that only maps the simplifier
/// over its children.
proof fn lemma_generic_case(a: Ast)
    requires
        literals_plain(a),
        opt_ast(a) == (Ast { token: a.token, children: opt_list(a.children) }),
    ensures
        eval_ast(opt_ast(a)) == eval_ast(a),
        literals_signed(opt_ast(a)),
    decreases a, 1nat,
{
    lemma_opt_list(a.children);
    lemma_opimize_preserves_value_list(a.children);
    if a.token.kind matches KindV::Number(_) {
        assert(a.children.len() == 0);
        assert(opt_list(a.children).len() == 0);
    }
}

/// Simplification preserves the evaluation of every member of a list
/// of subtrees, and of the list as a whole.
proof fn lemma_opimize_preserves_value_list(cs: Seq<Ast>)
    requires
        literals_plain_list(cs),
    ensures
        eval_args(opt_list(cs)) == eval_args(cs),
        literals_signed_list(opt_list(cs)),
    decreases cs, 0nat,
{
    if cs.len() > 0 {
        lemma_opimize_preserves_value_list(cs.drop_last());
        lemma_opimize_preserves_value(cs.last());
        assert(opt_list(cs).drop_last() =~= opt_list(cs.drop_last()));
        assert(opt_list(cs).last() == opt_ast(cs.last()));
    }
}

/// Whether any node of the tree is a prefix plus.
pub open spec fn contains_unary_plus(a: Ast) -> bool
    decreases a,
{
    ||| a.token.kind matches KindV::UnaryOperator(UnOps::Plus)
    ||| contains_unary_plus_list(a.children)
}

/// Whether any subtree of the list holds a prefix plus.
pub open spec fn contains_unary_plus_list(cs: Seq<Ast>) -> bool
    decreases cs,
{
    if cs.len() == 0 {
        false
    } else {
        contains_unary_plus_list(cs.drop_last()) || contains_unary_plus(cs.last())
    }
}

/// A plus-free list is plus-free member by member.
proof fn lemma_no_plus_list_index(cs: Seq<Ast>)
    requires
        !contains_unary_plus_list(cs),
    ensures
        forall|i: int| 0 <= i < cs.len() ==> !contains_unary_plus(#[trigger] cs[i]),
    decreases cs,
{
    if cs.len() > 0 {
        lemma_no_plus_list_index(cs.drop_last());
        assert forall|i: int| 0 <= i < cs.len() implies !contains_unary_plus(
            #[trigger] cs[i],
        ) by {
            if i < cs.len() - 1 {
                assert(cs.drop_last()[i] == cs[i]);
            } else {
                assert(cs.last() == cs[i]);
            }
        }
    }
}

/// Plus-free members make a plus-free list.
proof fn lemma_no_plus_list_build(cs: Seq<Ast>)
    requires
        forall|i: int| 0 <= i < cs.len() ==> !contains_unary_plus(#[trigger] cs[i]),
    ensures
        !contains_unary_plus_list(cs),
    decreases cs,
{
    if cs.len() > 0 {
        assert forall|i: int| 0 <= i < cs.drop_last().len() implies !contains_unary_plus(
            #[trigger] cs.drop_last()[i],
        ) by {
            assert(cs.drop_last()[i] == cs[i]);
        }
        lemma_no_plus_list_build(cs.drop_last());
        assert(cs.last() == cs[cs.len() - 1]);
    }
}

/// A fault-free list is fault-free member by member.
proof fn lemma_arity_list_none_index(cs: Seq<Ast>)
    requires
        arity_fault_list(cs) is None,
    ensures
        forall|i: int| 0 <= i < cs.len() ==> arity_fault(#[trigger] cs[i]) is None,
    decreases cs,
{
    if cs.len() > 0 {
        lemma_arity_list_none_index(cs.drop_last());
        assert forall|i: int| 0 <= i < cs.len() implies arity_fault(#[trigger] cs[i]) is None by {
            if i < cs.len() - 1 {
                assert(cs.drop_last()[i] == cs[i]);
            } else {
                assert(cs.last() == cs[i]);
            }
        }
    }
}

/// Simplifying a validated tree leaves no prefix plus behind: every
/// prefix plus there has exactly one operand, and each is replaced by
/// that operand.
pub proof fn lemma_opimize_removes_unary_plus(a: Ast)
    requires
        arity_fault(a) is None,
    ensures
        !contains_unary_plus(opt_ast(a)),
    decreases a,
{
    lemma_arity_list_none_index(a.children);
    match a.token.kind {
        KindV::UnaryOperator(UnOps::Plus) => {
            lemma_opimize_removes_unary_plus(a.children[0]);
        },
        KindV::UnaryOperator(UnOps::Minus) => {
            let x = a.children[0];
            lemma_opimize_removes_unary_plus(x);
            let c = opt_ast(x);
            if c.token.kind matches KindV::UnaryOperator(UnOps::Minus) && c.children.len() == 1 {
                lemma_no_plus_list_index(c.children);
                assert(!contains_unary_plus(c.children[0]));
            } else if c.token.kind matches KindV::Number(_) {
                assert(!contains_unary_plus_list(Seq::<Ast>::empty()));
            } else {
                assert(seq![c].drop_last() =~= Seq::<Ast>::empty());
                assert(!contains_unary_plus_list(seq![c].drop_last()));
                assert(seq![c].last() == c);
                assert(!contains_unary_plus_list(seq![c]));
            }
        },
        _ => {
            lemma_opt_list(a.children);
            assert forall|i: int| 0 <= i < opt_list(a.children).len() implies !contains_unary_plus(
                #[trigger] opt_list(a.children)[i],
            ) by {
                lemma_opimize_removes_unary_plus(a.children[i]);
            }
            lemma_no_plus_list_build(opt_list(a.children));
        },
    }
}

} // verus!
