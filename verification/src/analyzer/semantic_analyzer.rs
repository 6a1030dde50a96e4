//! The semantic pass: validation of operator arity over the whole
//! tree, and the simplification rewrites — a prefix plus is dropped, a
//! doubled prefix minus cancels, and a prefix minus over a number
//! literal folds into a signed literal.

use vstd::prelude::*;

use crate::analyzer::syntax_tree::{
    ast_of_node, asts_of_nodes, lemma_asts_of_nodes, Ast, SyntaxNode, SyntaxTree,
};
use crate::analyzer::token::{Kind, KindV, Token, TokenV, UnOps};
use crate::error::{Error, ErrorV};

verus! {

/// The first arity fault of a subtree in preorder: the node itself —
/// a binary operator needs exactly two operands, a unary operator
/// exactly one — and then its children, left to right. Functions take
/// however many arguments the call supplied, so they are not checked.
pub open spec fn arity_fault(a: Ast) -> Option<ErrorV>
    decreases a,
{
    match a.token.kind {
        KindV::BinaryOperator(_) => if a.children.len() != 2 {
            Some(ErrorV::WrongArity { line: a.token.line, column: a.token.column })
        } else {
            arity_fault_list(a.children)
        },
        KindV::UnaryOperator(_) => if a.children.len() != 1 {
            Some(ErrorV::WrongArity { line: a.token.line, column: a.token.column })
        } else {
            arity_fault_list(a.children)
        },
        _ => arity_fault_list(a.children),
    }
}

/// The first arity fault among a list of subtrees, left to right.
pub open spec fn arity_fault_list(cs: Seq<Ast>) -> Option<ErrorV>
    decreases cs,
{
    if cs.len() == 0 {
        None
    } else {
        match arity_fault_list(cs.drop_last()) {
            Some(e) => Some(e),
            None => arity_fault(cs.last()),
        }
    }
}

/// When every subtree before position `k` is fault-free and the
/// subtree at `k` faults, the whole list reports that fault.
proof fn lemma_arity_list_err(cs: Seq<Ast>, k: int, e: ErrorV)
    requires
        0 <= k < cs.len(),
        arity_fault_list(cs.take(k)) is None,
        arity_fault(cs[k]) == Some(e),
    ensures
        arity_fault_list(cs) == Some(e),
    decreases cs.len(),
{
    if k == cs.len() - 1 {
        assert(cs.take(k) =~= cs.drop_last());
        assert(cs.last() == cs[k]);
    } else {
        assert(cs.drop_last().take(k) =~= cs.take(k));
        assert(cs.drop_last()[k] == cs[k]);
        lemma_arity_list_err(cs.drop_last(), k, e);
    }
}

/// Check one subtree for arity faults, the node first, then its
/// children left to right.
fn check_node(n: &SyntaxNode) -> (r: Result<(), Error>)
    ensures
        match arity_fault(n@) {
            None => r is Ok,
            Some(e) => r matches Err(e2) && e2@ == e,
        },
    decreases *n,
{
    let ghost asts = asts_of_nodes(n.children@);
    proof {
        lemma_asts_of_nodes(n.children@);
        assert(n@.children.len() == n.children@.len());
        assert(asts.take(0) =~= Seq::<Ast>::empty());
    }
    let bad = match &n.value.kind {
        Kind::BinaryOperator(_) => n.children.len() != 2,
        Kind::UnaryOperator(_) => n.children.len() != 1,
        _ => false,
    };
    if bad {
        return Err(Error::WrongArity { line: n.value.line, column: n.value.column });
    }
    let mut failed: Option<Error> = None;
    let mut k: usize = 0;
    while k < n.children.len()
        invariant_except_break
            failed is None,
            k <= n.children.len(),
            asts == asts_of_nodes(n.children@),
            asts.len() == n.children@.len(),
            forall|j: int| 0 <= j < asts.len() ==> asts[j] == #[trigger] ast_of_node(n.children@[j]),
            arity_fault_list(asts.take(k as int)) is None,
        ensures
            match failed {
                Some(e) => arity_fault_list(asts) == Some(e@),
                None => arity_fault_list(asts.take(k as int)) is None && k == n.children@.len(),
            },
        decreases n.children@.len() - k,
    {
        proof {
            assert(decreases_to!(*n => n.children));
            assert(decreases_to!(n.children => n.children@[k as int]));
        }
        match check_node(&n.children[k]) {
            Ok(_) => {},
            Err(e) => {
                proof {
                    lemma_arity_list_err(asts, k as int, e@);
                }
                failed = Some(e);
                break ;
            },
        }
        proof {
            assert(asts.take(k as int + 1).drop_last() =~= asts.take(k as int));
            assert(asts.take(k as int + 1).last() == asts[k as int]);
        }
        k = k + 1;
    }
    match failed {
        Some(e) => Err(e),
        None => {
            proof {
                assert(asts.take(n.children@.len() as int) =~= asts);
            }
            Ok(())
        },
    }
}

/// Validate a syntax tree: every binary operator must have exactly
/// two operands and every unary operator exactly one, anywhere in the
/// tree; a tree without a root holds no expression.
pub fn process(syntax_tree: &SyntaxTree) -> (r: Result<(), Error>)
    ensures
        match syntax_tree@ {
            None => r matches Err(e) && e == Error::EmptyExpression,
            Some(a) => match arity_fault(a) {
                None => r is Ok,
                Some(e) => r matches Err(e2) && e2@ == e,
            },
        },
{
    match &syntax_tree.root {
        None => Err(Error::EmptyExpression),
        Some(node) => check_node(node),
    }
}

/// The sign-toggled text of a number literal: a leading minus sign is
/// removed, any other text gains one. Toggling twice gives the text
/// back, which makes the sign fold converge.
pub open spec fn toggle_sign(text: Seq<char>) -> Seq<char> {
    if text.len() > 0 && text[0] == '-' {
        text.drop_first()
    } else {
        seq!['-'] + text
    }
}

/// The token of the sign-folded literal: the same literal token with
/// the sign of its text toggled.
pub open spec fn negated_number_token(t: TokenV) -> TokenV {
    match t.kind {
        KindV::Number(text) => TokenV {
            assoc: t.assoc,
            prec: t.prec,
            kind: KindV::Number(toggle_sign(text)),
            line: t.line,
            column: t.column,
        },
        _ => t,
    }
}

/// The simplified form of a subtree, bottom up: children first, then
/// the node. A prefix plus with its one operand is replaced by the
/// simplified operand; a prefix minus whose simplified operand is
/// again a prefix minus cancels into that operand's operand; a prefix
/// minus whose simplified operand is a number literal folds into one
/// signed literal leaf. Everything else keeps its token over its
/// simplified children.
pub open spec fn opt_ast(a: Ast) -> Ast
    decreases a,
{
    match a.token.kind {
        KindV::UnaryOperator(UnOps::Plus) => if a.children.len() == 1 {
            opt_ast(a.children[0])
        } else {
            Ast { token: a.token, children: opt_list(a.children) }
        },
        KindV::UnaryOperator(UnOps::Minus) => if a.children.len() == 1 {
            let c = opt_ast(a.children[0]);
            if c.token.kind matches KindV::UnaryOperator(UnOps::Minus) && c.children.len() == 1 {
                c.children[0]
            } else if c.token.kind matches KindV::Number(_) {
                Ast { token: negated_number_token(c.token), children: Seq::empty() }
            } else {
                Ast { token: a.token, children: seq![c] }
            }
        } else {
            Ast { token: a.token, children: opt_list(a.children) }
        },
        _ => Ast { token: a.token, children: opt_list(a.children) },
    }
}

/// The simplified forms of a list of subtrees, in order.
pub open spec fn opt_list(cs: Seq<Ast>) -> Seq<Ast>
    decreases cs,
{
    if cs.len() == 0 {
        Seq::empty()
    } else {
        opt_list(cs.drop_last()).push(opt_ast(cs.last()))
    }
}

/// `opt_list` maps each subtree to its simplified form, keeping
/// length and order.
pub proof fn lemma_opt_list(cs: Seq<Ast>)
    ensures
        opt_list(cs).len() == cs.len(),
        forall|i: int| 0 <= i < cs.len() ==> opt_list(cs)[i] == opt_ast(#[trigger] cs[i]),
    decreases cs,
{
    if cs.len() > 0 {
        lemma_opt_list(cs.drop_last());
        assert forall|i: int| 0 <= i < cs.len() implies opt_list(cs)[i] == opt_ast(
            #[trigger] cs[i],
        ) by {
            if i < cs.len() - 1 {
                assert(opt_list(cs)[i] == opt_list(cs.drop_last())[i]);
                assert(cs.drop_last()[i] == cs[i]);
            } else {
                assert(cs.last() == cs[i]);
            }
        }
    }
}

/// Simplify one subtree, bottom up.
fn opt_node(n: SyntaxNode) -> (r: SyntaxNode)
    ensures
        r@ == opt_ast(n@),
    decreases n,
{
    proof {
        lemma_asts_of_nodes(n.children@);
    }
    let SyntaxNode { value, children } = n;
    let is_up = matches!(value.kind, Kind::UnaryOperator(UnOps::Plus));
    let is_um = matches!(value.kind, Kind::UnaryOperator(UnOps::Minus));
    if (is_up || is_um) && children.len() == 1 {
        let mut children = children;
        let child = children.pop().unwrap();
        proof {
            assert(child == n.children@[0]);
            assert(ast_of_node(child) == n@.children[0]);
            assert(decreases_to!(n => n.children));
            assert(decreases_to!(n.children => n.children@[0]));
        }
        let oc = opt_node(child);
        if is_up {
            return oc;
        }
        proof {
            lemma_asts_of_nodes(oc.children@);
            assert(oc@.children.len() == oc.children@.len());
        }
        let collapse = matches!(oc.value.kind, Kind::UnaryOperator(UnOps::Minus))
            && oc.children.len() == 1;
        if collapse {
            let ghost oca = oc@;
            let SyntaxNode { value: _ov, children: mut oc_children } = oc;
            proof {
                lemma_asts_of_nodes(oc_children@);
            }
            let g = oc_children.pop().unwrap();
            proof {
                assert(ast_of_node(g) == oca.children[0]);
            }
            return g;
        }
        let is_number = matches!(oc.value.kind, Kind::Number(_));
        if is_number {
            let mut text: Vec<char> = Vec::new();
            match &oc.value.kind {
                Kind::Number(old_text) => {
                    if old_text.len() > 0 && old_text[0] == '-' {
                        let mut j: usize = 1;
                        while j < old_text.len()
                            invariant
                                1 <= j <= old_text@.len(),
                                text@ == old_text@.subrange(1, j as int),
                            decreases old_text@.len() - j,
                        {
                            text.push(old_text[j]);
                            proof {
                                assert(old_text@.subrange(1, j as int + 1) =~= old_text@.subrange(
                                    1,
                                    j as int,
                                ).push(old_text@[j as int]));
                            }
                            j = j + 1;
                        }
                        proof {
                            assert(old_text@.subrange(1, old_text@.len() as int)
                                =~= old_text@.drop_first());
                            assert(text@ == toggle_sign(old_text@));
                        }
                    } else {
                        text.push('-');
                        let mut j: usize = 0;
                        while j < old_text.len()
                            invariant
                                j <= old_text@.len(),
                                text@ == seq!['-'] + old_text@.take(j as int),
                            decreases old_text@.len() - j,
                        {
                            text.push(old_text[j]);
                            proof {
                                assert(seq!['-'] + old_text@.take(j as int + 1) =~= (seq!['-']
                                    + old_text@.take(j as int)).push(old_text@[j as int]));
                            }
                            j = j + 1;
                        }
                        proof {
                            assert(old_text@.take(old_text@.len() as int) =~= old_text@);
                            assert(text@ == toggle_sign(old_text@));
                        }
                    }
                },
                _ => {},
            }
            let t = Token {
                assoc: oc.value.assoc,
                prec: oc.value.prec,
                kind: Kind::Number(text),
                line: oc.value.line,
                column: oc.value.column,
            };
            let r = SyntaxNode { value: t, children: Vec::new() };
            proof {
                assert(r.children@.len() == 0);
                assert(r@.children =~= Seq::<Ast>::empty());
            }
            return r;
        }
        let ghost oca2 = oc@;
        let mut cs: Vec<SyntaxNode> = Vec::new();
        cs.push(oc);
        let r = SyntaxNode { value, children: cs };
        proof {
            assert(cs@.len() == 1);
            assert(cs@.drop_last() =~= Seq::<SyntaxNode>::empty());
            assert(asts_of_nodes(cs@.drop_last()) =~= Seq::<Ast>::empty());
            assert(asts_of_nodes(cs@) =~= seq![oca2]);
            assert(oca2 == opt_ast(n@.children[0]));
            assert(r@.children =~= seq![opt_ast(n@.children[0])]);
        }
        return r;
    }
    let mut children = children;
    let mut out: Vec<SyntaxNode> = Vec::new();
    let ghost total = n.children@.len() as int;
    while children.len() > 0
        invariant
            out@.len() + children@.len() == total,
            total == n.children@.len(),
            children@ =~= n.children@.skip(out@.len() as int),
            forall|j: int|
                0 <= j < out@.len() ==> ast_of_node(#[trigger] out@[j]) == opt_ast(
                    ast_of_node(n.children@[j]),
                ),
        decreases children@.len(),
    {
        let ghost idx = out@.len() as int;
        let c = children.remove(0);
        proof {
            assert(c == n.children@[idx]);
            assert(decreases_to!(n => n.children));
            assert(decreases_to!(n.children => n.children@[idx]));
        }
        let oc = opt_node(c);
        out.push(oc);
        proof {
            assert(children@ =~= n.children@.skip(out@.len() as int));
        }
    }
    let r = SyntaxNode { value, children: out };
    proof {
        lemma_asts_of_nodes(out@);
        lemma_opt_list(n@.children);
        assert(asts_of_nodes(out@).len() == opt_list(n@.children).len());
        assert forall|j: int| 0 <= j < out@.len() implies asts_of_nodes(out@)[j] == opt_list(
            n@.children,
        )[j] by {
            assert(asts_of_nodes(out@)[j] == ast_of_node(out@[j]));
            assert(ast_of_node(out@[j]) == opt_ast(ast_of_node(n.children@[j])));
            assert(n@.children[j] == ast_of_node(n.children@[j]));
            assert(opt_list(n@.children)[j] == opt_ast(n@.children[j]));
        }
        assert(asts_of_nodes(out@) =~= opt_list(n@.children));
    }
    r
}

/// Validate a syntax tree and return its simplified form: the
/// validation's fault if it has one, else a tree evaluating to the
/// same result with every prefix plus removed, doubled prefix minuses
/// cancelled, and signs folded into literals.
pub fn opimize(syntax_tree: SyntaxTree) -> (r: Result<SyntaxTree, Error>)
    ensures
        match syntax_tree@ {
            None => r matches Err(e) && e == Error::EmptyExpression,
            Some(a) => match arity_fault(a) {
                Some(e) => r matches Err(e2) && e2@ == e,
                None => r matches Ok(t2) && t2@ == Some(opt_ast(a)),
            },
        },
{
    match process(&syntax_tree) {
        Ok(_) => {},
        Err(e) => {
            return Err(e);
        },
    }
    match syntax_tree.root {
        Some(node) => Ok(SyntaxTree { root: Some(opt_node(node)) }),
        None => Err(Error::EmptyExpression),
    }
}

} // verus!
