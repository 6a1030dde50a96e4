//! The tree-walking interpreter: a strict post-order walk that
//! evaluates every node from its already-evaluated operands, and the
//! whole compile-and-evaluate pipeline in one call.

use vstd::prelude::*;

use crate::analyzer::lexer::{spec_tokenize, tokenize};
use crate::analyzer::parser::{parse, spec_reverse_polish};
use crate::analyzer::semantic_analyzer::{arity_fault, opimize, opt_ast};
use crate::analyzer::syntax_tree::{
    asts_of_nodes, ast_of_node, lemma_asts_of_nodes, spec_build, Ast, SyntaxNode, SyntaxTree,
};
use crate::error::{Error, ErrorV};
use crate::interpreter::engine::{evaluate, spec_apply};
use crate::number::Number;

verus! {

/// What a subtree evaluates to: its operands first, left to right,
/// then the node itself; the leftmost fault wins.
pub open spec fn eval_ast(a: Ast) -> Result<Number, ErrorV>
    decreases a,
{
    match eval_args(a.children) {
        Ok(vals) => spec_apply(a.token, vals),
        Err(e) => Err(e),
    }
}

/// The values of a list of subtrees, in order, or the leftmost fault
/// among them.
pub open spec fn eval_args(cs: Seq<Ast>) -> Result<Seq<Number>, ErrorV>
    decreases cs,
{
    if cs.len() == 0 {
        Ok(Seq::empty())
    } else {
        match eval_args(cs.drop_last()) {
            Ok(vals) => match eval_ast(cs.last()) {
                Ok(v) => Ok(vals.push(v)),
                Err(e) => Err(e),
            },
            Err(e) => Err(e),
        }
    }
}

/// When every subtree before position `k` evaluates, and the subtree
/// at `k` faults, the whole list faults with that fault.
proof fn lemma_eval_args_err(cs: Seq<Ast>, k: int, vals: Seq<Number>, e: ErrorV)
    requires
        0 <= k < cs.len(),
        eval_args(cs.take(k)) == Ok::<Seq<Number>, ErrorV>(vals),
        eval_ast(cs[k]) == Err::<Number, ErrorV>(e),
    ensures
        eval_args(cs) == Err::<Seq<Number>, ErrorV>(e),
    decreases cs.len(),
{
    if k == cs.len() - 1 {
        assert(cs.take(k) =~= cs.drop_last());
        assert(cs.last() == cs[k]);
    } else {
        assert(cs.drop_last().take(k) =~= cs.take(k));
        assert(cs.drop_last()[k] == cs[k]);
        lemma_eval_args_err(cs.drop_last(), k, vals, e);
    }
}

/// Evaluate one subtree by a strict post-order walk.
fn eval_node(n: &SyntaxNode) -> (r: Result<Number, Error>)
    ensures
        (r matches Ok(v) ==> eval_ast(n@) == Ok::<Number, ErrorV>(v) && v.wf()),
        (r matches Err(e) ==> eval_ast(n@) == Err::<Number, ErrorV>(e@)),
    decreases *n,
{
    let ghost asts = asts_of_nodes(n.children@);
    proof {
        lemma_asts_of_nodes(n.children@);
    }
    let mut vals: Vec<Number> = Vec::new();
    let mut failed: Option<Error> = None;
    let mut k: usize = 0;
    proof {
        assert(asts.take(0) =~= Seq::<Ast>::empty());
    }
    while k < n.children.len()
        invariant_except_break
            failed is None,
            k <= n.children.len(),
            asts == asts_of_nodes(n.children@),
            asts.len() == n.children@.len(),
            forall|j: int| 0 <= j < asts.len() ==> asts[j] == #[trigger] ast_of_node(n.children@[j]),
            vals@.len() == k as int,
            forall|j: int| 0 <= j < vals@.len() ==> (#[trigger] vals@[j]).wf(),
            eval_args(asts.take(k as int)) == Ok::<Seq<Number>, ErrorV>(vals@),
        ensures
            match failed {
                Some(e) => eval_args(asts) == Err::<Seq<Number>, ErrorV>(e@),
                None => k == n.children@.len() && eval_args(asts.take(k as int)) == Ok::<
                    Seq<Number>,
                    ErrorV,
                >(vals@) && (forall|j: int|
                    0 <= j < vals@.len() ==> (#[trigger] vals@[j]).wf()),
            },
        decreases n.children@.len() - k,
    {
        proof {
            assert(decreases_to!(*n => n.children));
            assert(decreases_to!(n.children => n.children@[k as int]));
        }
        let child = &n.children[k];
        match eval_node(child) {
            Ok(v) => {
                let ghost old_vals = vals@;
                vals.push(v);
                proof {
                    assert(asts.take(k as int + 1).drop_last() =~= asts.take(k as int));
                    assert(asts.take(k as int + 1).last() == asts[k as int]);
                }
            },
            Err(e) => {
                proof {
                    lemma_eval_args_err(asts, k as int, vals@, e@);
                }
                failed = Some(e);
                break ;
            },
        }
        k = k + 1;
    }
    if let Some(e) = failed {
        return Err(e);
    }
    proof {
        assert(asts.take(n.children@.len() as int) =~= asts);
        assert(n@.children == asts);
    }
    evaluate(&n.value, &vals)
}

/// Evaluate a syntax tree by a strict post-order walk of its nodes;
/// a tree with no root holds no expression at all.
pub fn interprete(tree: &SyntaxTree) -> (r: Result<Number, Error>)
    ensures
        match tree@ {
            Some(a) => (r matches Ok(v) ==> eval_ast(a) == Ok::<Number, ErrorV>(v) && v.wf()) && (
            r matches Err(e) ==> eval_ast(a) == Err::<Number, ErrorV>(e@)),
            None => r matches Err(e) && e == Error::EmptyExpression,
        },
{
    match &tree.root {
        Some(node) => eval_node(node),
        None => Err(Error::EmptyExpression),
    }
}

/// What the whole pipeline returns for an expression's text: the
/// faults of the lexer, the reorderer, the builder and the validator
/// in stage order, else the evaluation of the validated, simplified
/// tree.
pub open spec fn spec_pipeline(s: Seq<char>) -> Result<Number, ErrorV> {
    match spec_tokenize(s) {
        Err(e) => Err(e),
        Ok(toks) => match spec_reverse_polish(toks) {
            Err(e) => Err(e),
            Ok(q) => if q.len() == 0 {
                Err(ErrorV::EmptyExpression)
            } else {
                let a = spec_build(q);
                match arity_fault(a) {
                    Some(e) => Err(e),
                    None => eval_ast(opt_ast(a)),
                }
            },
        },
    }
}

/// Compile and evaluate one expression: tokenize it, reorder it into
/// Reverse Polish order, build the syntax tree, validate and simplify
/// it, and walk it to the result.
pub fn evaluate_expression(expression: &str) -> (r: Result<Number, Error>)
    requires
        expression@.len() < usize::MAX,
    ensures
        (r matches Ok(v) ==> spec_pipeline(expression@) == Ok::<Number, ErrorV>(v) && v.wf()),
        (r matches Err(e) ==> spec_pipeline(expression@) == Err::<Number, ErrorV>(e@)),
{
    let toks = match tokenize(expression) {
        Ok(t) => t,
        Err(e) => {
            return Err(e);
        },
    };
    let tree = match parse(toks) {
        Ok(t) => t,
        Err(e) => {
            return Err(e);
        },
    };
    let tree = match opimize(tree) {
        Ok(t) => t,
        Err(e) => {
            return Err(e);
        },
    };
    interprete(&tree)
}

} // verus!
