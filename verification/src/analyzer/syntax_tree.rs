//! The syntax tree: operators and functions are interior nodes, number
//! literals are leaves, and a node's children stand in left-to-right
//! source order. Trees are built from a Reverse Polish token queue with
//! an explicit stack of open nodes, so no parent back-references are
//! needed.

use vstd::prelude::*;

use crate::analyzer::token::{toks_view, Delim, Kind, KindV, Token, TokenV};
use crate::error::Error;

verus! {

/// One node of the syntax tree: the owning token and the ordered list
/// of operand subtrees.
#[derive(Debug, PartialEq, Eq)]
pub struct SyntaxNode {
    pub value: Token,
    pub children: Vec<SyntaxNode>,
}

/// A syntax tree: its root node, absent only for a tree that was never
/// given one.
#[derive(Debug, PartialEq, Eq)]
pub struct SyntaxTree {
    pub root: Option<SyntaxNode>,
}

/// The mathematical value of a syntax tree node: the token and the
/// child subtrees as one recursive datatype.
pub ghost struct Ast {
    pub token: TokenV,
    pub children: Seq<Ast>,
}

/// The mathematical value of a node.
pub open spec fn ast_of_node(n: SyntaxNode) -> Ast
    decreases n,
{
    Ast { token: n.value@, children: asts_of_nodes(n.children@) }
}

/// The mathematical values of a list of nodes, in order.
pub open spec fn asts_of_nodes(ns: Seq<SyntaxNode>) -> Seq<Ast>
    decreases ns,
{
    if ns.len() == 0 {
        Seq::empty()
    } else {
        asts_of_nodes(ns.drop_last()).push(ast_of_node(ns.last()))
    }
}

/// `asts_of_nodes` maps each node to its value, keeping length and
/// order.
pub proof fn lemma_asts_of_nodes(ns: Seq<SyntaxNode>)
    ensures
        asts_of_nodes(ns).len() == ns.len(),
        forall|i: int|
            0 <= i < ns.len() ==> asts_of_nodes(ns)[i] == #[trigger] ast_of_node(ns[i]),
    decreases ns,
{
    if ns.len() > 0 {
        lemma_asts_of_nodes(ns.drop_last());
        assert forall|i: int| 0 <= i < ns.len() implies asts_of_nodes(ns)[i] == #[trigger] ast_of_node(
            ns[i],
        ) by {
            if i < ns.len() - 1 {
                assert(asts_of_nodes(ns)[i] == asts_of_nodes(ns.drop_last())[i]);
                assert(ns.drop_last()[i] == ns[i]);
            } else {
                assert(ns.last() == ns[i]);
            }
        }
    }
}

impl View for SyntaxNode {
    type V = Ast;

    open spec fn view(&self) -> Ast {
        ast_of_node(*self)
    }
}

impl View for SyntaxTree {
    type V = Option<Ast>;

    open spec fn view(&self) -> Option<Ast> {
        match self.root {
            Some(n) => Some(ast_of_node(n)),
            None => None,
        }
    }
}

impl SyntaxNode {
    /// A fresh node for the given token, with no children yet.
    pub fn new(value: Token) -> (r: Self)
        ensures
            r@ == (Ast { token: value@, children: Seq::<Ast>::empty() }),
    {
        let r = Self { value, children: Vec::new() };
        proof {
            assert(r.children@.len() == 0);
        }
        r
    }

    /// The node's operand subtrees, in source order.
    pub fn get_children(&self) -> (r: &Vec<SyntaxNode>)
        ensures
            r == &self.children,
    {
        &self.children
    }

    /// The node's operand subtrees, open to rearrangement; the node's
    /// own token stays as it is.
    pub fn get_children_mut(&mut self) -> (r: &mut Vec<SyntaxNode>)
        ensures
            *r == old(self).children,
            *final(self) == (SyntaxNode { value: old(self).value, children: *final(r) }),
    {
        &mut self.children
    }

    /// Append a subtree after the node's present children.
    pub fn add_child(&mut self, child: SyntaxNode)
        ensures
            final(self)@ == (Ast {
                token: old(self)@.token,
                children: old(self)@.children.push(child@),
            }),
            final(self).value == old(self).value,
    {
        let ghost before = self.children@;
        self.children.push(child);
        proof {
            assert(self.children@.drop_last() =~= before);
        }
    }
}

/// An open entry of the build stack: the token of a node still under
/// construction, and the subtrees attached to it so far.
pub ghost struct OpenNode {
    pub token: TokenV,
    pub children: Seq<Ast>,
}

/// Whether an open entry already holds every operand its token
/// requires: one for a unary operator, two for a binary operator.
/// Numbers and functions never fill up on their own.
pub open spec fn entry_full(e: OpenNode) -> bool {
    match e.token.kind {
        KindV::UnaryOperator(_) => e.children.len() == 1,
        KindV::BinaryOperator(_) => e.children.len() == 2,
        _ => false,
    }
}

/// The subtree an open entry closes into.
pub open spec fn entry_node(e: OpenNode) -> Ast {
    Ast { token: e.token, children: e.children }
}

/// Close the top entry of the stack and attach its subtree before the
/// children of the entry below. Meaningful only for stacks of at
/// least two entries.
pub open spec fn collapse_top(stack: Seq<OpenNode>) -> Seq<OpenNode> {
    let node = entry_node(stack.last());
    let below = stack[stack.len() - 2];
    stack.drop_last().update(
        stack.len() - 2,
        OpenNode { token: below.token, children: below.children.insert(0, node) },
    )
}

/// Attach a leaf for token `t` before the children of the top entry.
pub open spec fn attach_leaf(stack: Seq<OpenNode>, t: TokenV) -> Seq<OpenNode> {
    let top = stack.last();
    stack.update(
        stack.len() - 1,
        OpenNode {
            token: top.token,
            children: top.children.insert(0, Ast { token: t, children: Seq::empty() }),
        },
    )
}

/// Close every remaining entry in turn; the bottom entry becomes the
/// root of the whole tree.
pub open spec fn collapse_all(stack: Seq<OpenNode>) -> Ast
    decreases stack.len(),
{
    if stack.len() == 0 {
        arbitrary()
    } else if stack.len() == 1 {
        entry_node(stack.last())
    } else {
        collapse_all(collapse_top(stack))
    }
}

/// One construction step per Reverse Polish token, taken from the back
/// of `rem`: a full operator entry closes and ascends; a number
/// becomes a leaf of the open entry; an operator or function opens a
/// new entry; the argument-end marker closes the open entry without an
/// operand count; anything else is dropped. Construction stops when
/// the tokens run out or the bottom entry closes, and whatever remains
/// open is then closed from the top down.
pub open spec fn build_rec(stack: Seq<OpenNode>, rem: Seq<TokenV>) -> Ast
    decreases rem.len(), stack.len(),
{
    if stack.len() == 0 {
        arbitrary()
    } else if entry_full(stack.last()) {
        if stack.len() == 1 {
            entry_node(stack.last())
        } else {
            build_rec(collapse_top(stack), rem)
        }
    } else if rem.len() == 0 {
        collapse_all(stack)
    } else {
        let t = rem.last();
        match t.kind {
            KindV::Number(_) => build_rec(attach_leaf(stack, t), rem.drop_last()),
            KindV::Func(_) => build_rec(
                stack.push(OpenNode { token: t, children: Seq::empty() }),
                rem.drop_last(),
            ),
            KindV::UnaryOperator(_) => build_rec(
                stack.push(OpenNode { token: t, children: Seq::empty() }),
                rem.drop_last(),
            ),
            KindV::BinaryOperator(_) => build_rec(
                stack.push(OpenNode { token: t, children: Seq::empty() }),
                rem.drop_last(),
            ),
            KindV::Delimiter(Delim::FuncArgs) => if stack.len() == 1 {
                entry_node(stack.last())
            } else {
                build_rec(collapse_top(stack), rem.drop_last())
            },
            _ => build_rec(stack, rem.drop_last()),
        }
    }
}

/// The tree built from a nonempty Reverse Polish token sequence: its
/// last token seeds the root, and the rest is consumed back to front.
pub open spec fn spec_build(rpn: Seq<TokenV>) -> Ast {
    build_rec(seq![OpenNode { token: rpn.last(), children: Seq::empty() }], rpn.drop_last())
}

/// With no tokens left, the construction steps only close entries.
proof fn lemma_build_rec_empty(stack: Seq<OpenNode>)
    requires
        stack.len() >= 1,
    ensures
        build_rec(stack, Seq::empty()) == collapse_all(stack),
    decreases stack.len(),
{
    if entry_full(stack.last()) && stack.len() > 1 {
        lemma_build_rec_empty(collapse_top(stack));
    }
}

/// The values of a node list with one node inserted at the front.
proof fn lemma_asts_insert_front(ns: Seq<SyntaxNode>, n: SyntaxNode)
    ensures
        asts_of_nodes(ns.insert(0, n)) == asts_of_nodes(ns).insert(0, ast_of_node(n)),
{
    lemma_asts_of_nodes(ns.insert(0, n));
    lemma_asts_of_nodes(ns);
    ns.insert_ensures(0, n);
    asts_of_nodes(ns).insert_ensures(0, ast_of_node(n));
    assert forall|i: int| 0 <= i < ns.len() + 1 implies asts_of_nodes(ns.insert(0, n))[i]
        == asts_of_nodes(ns).insert(0, ast_of_node(n))[i] by {
        assert(asts_of_nodes(ns.insert(0, n))[i] == ast_of_node(ns.insert(0, n)[i]));
        if i > 0 {
            assert(ns.insert(0, n)[i] == ns[i - 1]);
            assert(asts_of_nodes(ns)[i - 1] == ast_of_node(ns[i - 1]));
        }
    }
    assert(asts_of_nodes(ns.insert(0, n)) =~= asts_of_nodes(ns).insert(0, ast_of_node(n)));
}

/// The values of the open entries of the build stack, bottom to top.
pub open spec fn stack_view(s: Seq<(Token, Vec<SyntaxNode>)>) -> Seq<OpenNode> {
    Seq::new(s.len(), |i: int| OpenNode { token: s[i].0@, children: asts_of_nodes(s[i].1@) })
}

/// Close the top entry of the exec build stack and attach its subtree
/// before the children of the entry below.
fn collapse_once(stack: &mut Vec<(Token, Vec<SyntaxNode>)>)
    requires
        old(stack)@.len() >= 2,
    ensures
        stack_view(final(stack)@) == collapse_top(stack_view(old(stack)@)),
        final(stack)@.len() == old(stack)@.len() - 1,
{
    let ghost sv0 = stack_view(stack@);
    let (t, ch) = stack.pop().unwrap();
    let node = SyntaxNode { value: t, children: ch };
    let (t2, mut ch2) = stack.pop().unwrap();
    proof {
        lemma_asts_insert_front(ch2@, node);
    }
    ch2.insert(0, node);
    stack.push((t2, ch2));
    proof {
        assert(stack_view(stack@) =~~= collapse_top(sv0));
    }
}

impl SyntaxTree {
    /// A tree with no root yet.
    pub fn new() -> (r: Self)
        ensures
            r@ is None,
    {
        Self { root: None }
    }

    /// A tree owning the given root node, if any.
    pub fn with_root(root_node: Option<SyntaxNode>) -> (r: Self)
        ensures
            root_node matches Some(n) ==> r@ == Some(n@),
            root_node is None ==> r@ is None,
    {
        Self { root: root_node }
    }

    /// Replace the root node.
    pub fn set_root(&mut self, node: Option<SyntaxNode>)
        ensures
            node matches Some(n) ==> final(self)@ == Some(n@),
            node is None ==> final(self)@ is None,
    {
        self.root = node;
    }

    /// The root node, if the tree has one.
    pub fn get_root(&self) -> (r: Option<&SyntaxNode>)
        ensures
            self.root matches Some(n) ==> (r matches Some(m) && m == &n),
            self.root is None ==> r is None,
    {
        self.root.as_ref()
    }

    /// Build the syntax tree of a Reverse Polish token queue,
    /// consuming the queue from its back so that the queue's last
    /// token seeds the root. An empty queue holds no expression and
    /// is rejected.
    pub fn build(rpn: Vec<Token>) -> (r: Result<SyntaxTree, Error>)
        ensures
            rpn@.len() == 0 ==> (r matches Err(e) && e == Error::EmptyExpression),
            rpn@.len() > 0 ==> (r matches Ok(t) && t@ == Some(spec_build(toks_view(rpn@)))),
    {
        let ghost rpn0 = toks_view(rpn@);
        let mut rpn = rpn;
        let first = match rpn.pop() {
            Some(t) => t,
            None => {
                return Err(Error::EmptyExpression);
            },
        };
        let mut stack: Vec<(Token, Vec<SyntaxNode>)> = Vec::new();
        stack.push((first, Vec::new()));
        proof {
            assert(toks_view(rpn@) =~= rpn0.drop_last());
            assert(stack_view(stack@) =~~= seq![
                OpenNode { token: rpn0.last(), children: Seq::<Ast>::empty() },
            ]);
        }
        loop
            invariant_except_break
                stack@.len() >= 1,
                rpn0.len() > 0,
                build_rec(stack_view(stack@), toks_view(rpn@)) == spec_build(rpn0),
            ensures
                stack@.len() >= 1,
                collapse_all(stack_view(stack@)) == spec_build(rpn0),
            decreases rpn@.len(), stack@.len(),
        {
            let ghost sv = stack_view(stack@);
            let ghost rv = toks_view(rpn@);
            proof {
                lemma_asts_of_nodes(stack@.last().1@);
                assert(sv.last() == (OpenNode {
                    token: stack@.last().0@,
                    children: asts_of_nodes(stack@.last().1@),
                }));
            }
            let n = stack.len();
            let top_full = match &stack[n - 1].0.kind {
                Kind::UnaryOperator(_) => stack[n - 1].1.len() == 1,
                Kind::BinaryOperator(_) => stack[n - 1].1.len() == 2,
                _ => false,
            };
            proof {
                assert(top_full == entry_full(sv.last()));
            }
            if top_full {
                if stack.len() == 1 {
                    proof {
                        assert(collapse_all(sv) == entry_node(sv.last()));
                    }
                    break ;
                }
                collapse_once(&mut stack);
            } else {
                let popped = rpn.pop();
                match popped {
                    None => {
                        proof {
                            assert(toks_view(rpn@) =~= Seq::<TokenV>::empty());
                            lemma_build_rec_empty(sv);
                        }
                        break ;
                    },
                    Some(tok) => {
                        proof {
                            assert(toks_view(rpn@) =~= rv.drop_last());
                            assert(rv.last() == tok@);
                        }
                        match &tok.kind {
                            Kind::Number(_) => {
                                let (t2, mut ch2) = stack.pop().unwrap();
                                let leaf = SyntaxNode { value: tok, children: Vec::new() };
                                proof {
                                    lemma_asts_insert_front(ch2@, leaf);
                                }
                                ch2.insert(0, leaf);
                                stack.push((t2, ch2));
                                proof {
                                    assert(stack_view(stack@) =~~= attach_leaf(sv, rv.last()));
                                }
                            },
                            Kind::Func(_) | Kind::UnaryOperator(_) | Kind::BinaryOperator(_) => {
                                stack.push((tok, Vec::new()));
                                proof {
                                    assert(stack_view(stack@) =~~= sv.push(
                                        OpenNode { token: rv.last(), children: Seq::<Ast>::empty() },
                                    ));
                                }
                            },
                            Kind::Delimiter(d) => {
                                if matches!(d, Delim::FuncArgs) {
                                    if stack.len() == 1 {
                                        proof {
                                            assert(collapse_all(sv) == entry_node(sv.last()));
                                        }
                                        break ;
                                    }
                                    collapse_once(&mut stack);
                                }
                            },
                            _ => {},
                        }
                    },
                }
            }
        }
        while stack.len() > 1
            invariant
                stack@.len() >= 1,
                collapse_all(stack_view(stack@)) == spec_build(rpn0),
            decreases stack@.len(),
        {
            collapse_once(&mut stack);
        }
        let ghost sv_end = stack_view(stack@);
        let (t, ch) = stack.pop().unwrap();
        let node = SyntaxNode { value: t, children: ch };
        proof {
            assert(ast_of_node(node) == entry_node(sv_end.last()));
            assert(collapse_all(sv_end) == entry_node(sv_end.last()));
        }
        Ok(SyntaxTree { root: Some(node) })
    }
}

} // verus!
