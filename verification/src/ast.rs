//! The abstract syntax tree handed to downstream consumers, together with its
//! spec-level model.

use vstd::prelude::*;

verus! {

/// Spec-level expression tree: names and literal texts are character
/// sequences.
pub enum ExprV {
    Binary { op: char, lhs: Box<ExprV>, rhs: Box<ExprV> },
    Call { name: Seq<char>, args: Seq<ExprV> },
    Number(Seq<char>),
    Variable(Seq<char>),
}

/// An expression node. The tree is immutable after construction and
/// ownership is strictly hierarchical: no node is shared between subtrees.
#[derive(Debug, PartialEq)]
pub enum Expr {
    /// An infix application.
    Binary { op: char, lhs: Box<Expr>, rhs: Box<Expr> },
    /// A function invocation; a unary-operator application is a `Call` to the
    /// synthesized name `unary` followed by the operator character, with
    /// exactly one argument.
    Call { name: String, args: Vec<Expr> },
    /// The captured text of a numeric literal.
    Number(String),
    /// A reference to an identifier.
    Variable(String),
}

broadcast use vstd::std_specs::vec::group_vec_axioms, vstd::seq::axiom_seq_index_decreases, vstd::seq::axiom_seq_subrange_decreases;

/// The spec-level model of an expression node.
pub open spec fn expr_view(e: Expr) -> ExprV
    decreases e,
{
    match e {
        Expr::Binary { op, lhs, rhs } => ExprV::Binary {
            op: op,
            lhs: Box::new(expr_view(*lhs)),
            rhs: Box::new(expr_view(*rhs)),
        },
        Expr::Call { name, args } => ExprV::Call { name: name@, args: exprs_view(args@) },
        Expr::Number(s) => ExprV::Number(s@),
        Expr::Variable(s) => ExprV::Variable(s@),
    }
}

/// The models of a sequence of expression nodes, in order.
pub open spec fn exprs_view(s: Seq<Expr>) -> Seq<ExprV>
    decreases s,
{
    if s.len() == 0 {
        Seq::empty()
    } else {
        seq![expr_view(s[0])] + exprs_view(s.drop_first())
    }
}

/// Appending a node appends its model.
pub proof fn lemma_exprs_view_push(s: Seq<Expr>, e: Expr)
    ensures
        exprs_view(s.push(e)) == exprs_view(s).push(expr_view(e)),
    decreases s.len(),
{
    if s.len() == 0 {
        assert(s.push(e)[0] == e);
        assert(s.push(e).drop_first() =~= Seq::<Expr>::empty());
        assert(exprs_view(s.push(e)) == seq![expr_view(e)] + exprs_view(Seq::<Expr>::empty()));
        assert(exprs_view(Seq::<Expr>::empty()) =~= Seq::<ExprV>::empty());
        assert(exprs_view(s.push(e)) =~= exprs_view(s).push(expr_view(e)));
    } else {
        lemma_exprs_view_push(s.drop_first(), e);
        assert(s.push(e)[0] == s[0]);
        assert(s.push(e).drop_first() =~= s.drop_first().push(e));
        assert(exprs_view(s.push(e)) == seq![expr_view(s[0])] + exprs_view(
            s.drop_first().push(e),
        ));
        assert(exprs_view(s) == seq![expr_view(s[0])] + exprs_view(s.drop_first()));
        assert(exprs_view(s.push(e)) =~= exprs_view(s).push(expr_view(e)));
    }
}

/// The models of a sequence of parameter names, in order.
pub open spec fn names_view(s: Seq<String>) -> Seq<Seq<char>> {
    s.map_values(|a: String| a@)
}

/// `exprs_view` maps each element to its model.
pub proof fn lemma_exprs_view(s: Seq<Expr>)
    ensures
        exprs_view(s).len() == s.len(),
        forall|i: int| 0 <= i < s.len() ==> exprs_view(s)[i] == expr_view(#[trigger] s[i]),
    decreases s.len(),
{
    if s.len() > 0 {
        lemma_exprs_view(s.drop_first());
        assert forall|i: int| 0 <= i < s.len() implies exprs_view(s)[i] == expr_view(
            #[trigger] s[i],
        ) by {
            if i >= 1 {
                assert(s.drop_first()[i - 1] == s[i]);
                assert(exprs_view(s)[i] == exprs_view(s.drop_first())[i - 1]);
            }
        }
    }
}

impl View for Expr {
    type V = ExprV;

    open spec fn view(&self) -> ExprV {
        expr_view(*self)
    }
}

/// Spec-level model of a prototype.
pub struct PrototypeV {
    pub name: Seq<char>,
    pub args: Seq<Seq<char>>,
    pub prec: int,
    pub is_op: bool,
}

/// The "prototype" of a function: its name and its argument names (and thus,
/// implicitly, how many arguments it takes). For a custom operator
/// declaration, `name` is the synthesized `binary` name, `is_op` is true and
/// `prec` is the declared precedence.
#[derive(Debug, PartialEq)]
pub struct Prototype {
    pub name: String,
    pub args: Vec<String>,
    pub prec: usize,
    pub is_op: bool,
}

impl View for Prototype {
    type V = PrototypeV;

    open spec fn view(&self) -> PrototypeV {
        PrototypeV {
            name: self.name@,
            args: names_view(self.args@),
            prec: self.prec as int,
            is_op: self.is_op,
        }
    }
}

/// Spec-level model of a function record.
pub struct FunctionV {
    pub proto: PrototypeV,
    pub body: Option<ExprV>,
    pub is_anon: bool,
}

/// One top-level construct: a definition, an extern declaration (no body), or
/// a wrapped top-level expression (`is_anon` set, synthetic name, no
/// parameters).
#[derive(Debug, PartialEq)]
pub struct Function {
    pub proto: Prototype,
    pub body: Option<Expr>,
    pub is_anon: bool,
}

impl View for Function {
    type V = FunctionV;

    open spec fn view(&self) -> FunctionV {
        FunctionV {
            proto: self.proto@,
            body: match &self.body {
                Some(e) => Some(e@),
                None => None,
            },
            is_anon: self.is_anon,
        }
    }
}

} // verus!
