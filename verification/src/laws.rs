//! General laws of the parser, stated over the grammar's spec functions and
//! proved once and for all: how precedence and parentheses shape the tree,
//! what a prefix operator becomes, and what a custom-operator declaration
//! does to the shared table.

use vstd::prelude::*;

use crate::ast::ExprV;
use crate::grammar::{
    dec_val, spec_bin_expr, spec_definition, spec_expr, spec_num_expr, spec_paren_expr,
    spec_primary, spec_proto_tail, spec_prototype, spec_tok_prec, spec_unary_expr, unary_name,
    ExprOut, FnOut, ProtoOut,
};
use crate::token::TokenV;

verus! {

/// Two infix operators of equal registered precedence group to the left:
/// `x o1 y o2 z` parses as `(x o1 y) o2 z`.
pub proof fn lemma_equal_precedence_left_assoc(
    x: Seq<char>,
    o1: char,
    y: Seq<char>,
    o2: char,
    z: Seq<char>,
    tab: Map<char, int>,
    p: int,
)
    requires
        tab.contains_key(o1),
        tab.contains_key(o2),
        tab[o1] == p,
        tab[o2] == p,
        p >= 0,
    ensures
        ({
            let t = seq![
                TokenV::Number(x),
                TokenV::Op(o1),
                TokenV::Number(y),
                TokenV::Op(o2),
                TokenV::Number(z),
            ];
            spec_expr(t, 0, tab) == (ExprOut::Parsed {
                e: (ExprV::Binary {
                    op: o2,
                    lhs: Box::new(
                        ExprV::Binary {
                            op: o1,
                            lhs: Box::new(ExprV::Number(x)),
                            rhs: Box::new(ExprV::Number(y)),
                        },
                    ),
                    rhs: Box::new(ExprV::Number(z)),
                }),
                pos: 5,
            })
        }),
{
    let t = seq![
        TokenV::Number(x),
        TokenV::Op(o1),
        TokenV::Number(y),
        TokenV::Op(o2),
        TokenV::Number(z),
    ];
    let inner = ExprV::Binary {
        op: o1,
        lhs: Box::new(ExprV::Number(x)),
        rhs: Box::new(ExprV::Number(y)),
    };
    let outer = ExprV::Binary { op: o2, lhs: Box::new(inner), rhs: Box::new(ExprV::Number(z)) };
    assert(spec_unary_expr(t, 0, tab) == (ExprOut::Parsed { e: ExprV::Number(x), pos: 1 }));
    assert(spec_unary_expr(t, 2, tab) == (ExprOut::Parsed { e: ExprV::Number(y), pos: 3 }));
    assert(t[4] == TokenV::Number(z));
    assert(spec_num_expr(t, 4) == (ExprOut::Parsed { e: ExprV::Number(z), pos: 5 }));
    assert(spec_primary(t, 4, tab) == (ExprOut::Parsed { e: ExprV::Number(z), pos: 5 }));
    assert(spec_unary_expr(t, 4, tab) == (ExprOut::Parsed { e: ExprV::Number(z), pos: 5 }));
    assert(spec_tok_prec(t, 1, tab) == p);
    assert(spec_tok_prec(t, 3, tab) == p);
    assert(spec_tok_prec(t, 5, tab) == -1);
    assert(spec_bin_expr(t, 5, tab, 0, outer) == (ExprOut::Parsed { e: outer, pos: 5 }));
    assert(spec_bin_expr(t, 3, tab, 0, inner) == (ExprOut::Parsed { e: outer, pos: 5 }));
    assert(spec_bin_expr(t, 1, tab, 0, ExprV::Number(x)) == (ExprOut::Parsed {
        e: outer,
        pos: 5,
    }));
    assert(spec_expr(t, 0, tab) == spec_bin_expr(t, 1, tab, 0, ExprV::Number(x)));
}

/// The tighter of two infix operators binds deeper: with `o2` registered
/// tighter than `o1`, `x o1 y o2 z` parses as `x o1 (y o2 z)`.
pub proof fn lemma_tighter_binds_deeper(
    x: Seq<char>,
    o1: char,
    y: Seq<char>,
    o2: char,
    z: Seq<char>,
    tab: Map<char, int>,
)
    requires
        tab.contains_key(o1),
        tab.contains_key(o2),
        0 <= tab[o1] < tab[o2],
    ensures
        ({
            let t = seq![
                TokenV::Number(x),
                TokenV::Op(o1),
                TokenV::Number(y),
                TokenV::Op(o2),
                TokenV::Number(z),
            ];
            spec_expr(t, 0, tab) == (ExprOut::Parsed {
                e: (ExprV::Binary {
                    op: o1,
                    lhs: Box::new(ExprV::Number(x)),
                    rhs: Box::new(
                        ExprV::Binary {
                            op: o2,
                            lhs: Box::new(ExprV::Number(y)),
                            rhs: Box::new(ExprV::Number(z)),
                        },
                    ),
                }),
                pos: 5,
            })
        }),
{
    let t = seq![
        TokenV::Number(x),
        TokenV::Op(o1),
        TokenV::Number(y),
        TokenV::Op(o2),
        TokenV::Number(z),
    ];
    let p1 = tab[o1];
    let p2 = tab[o2];
    let inner = ExprV::Binary {
        op: o2,
        lhs: Box::new(ExprV::Number(y)),
        rhs: Box::new(ExprV::Number(z)),
    };
    let outer = ExprV::Binary { op: o1, lhs: Box::new(ExprV::Number(x)), rhs: Box::new(inner) };
    assert(spec_unary_expr(t, 0, tab) == (ExprOut::Parsed { e: ExprV::Number(x), pos: 1 }));
    assert(spec_unary_expr(t, 2, tab) == (ExprOut::Parsed { e: ExprV::Number(y), pos: 3 }));
    assert(t[4] == TokenV::Number(z));
    assert(spec_num_expr(t, 4) == (ExprOut::Parsed { e: ExprV::Number(z), pos: 5 }));
    assert(spec_primary(t, 4, tab) == (ExprOut::Parsed { e: ExprV::Number(z), pos: 5 }));
    assert(spec_unary_expr(t, 4, tab) == (ExprOut::Parsed { e: ExprV::Number(z), pos: 5 }));
    assert(spec_tok_prec(t, 1, tab) == p1);
    assert(spec_tok_prec(t, 3, tab) == p2);
    assert(spec_tok_prec(t, 5, tab) == -1);
    assert(spec_bin_expr(t, 5, tab, p1 + 1, inner) == (ExprOut::Parsed { e: inner, pos: 5 }));
    assert(spec_bin_expr(t, 3, tab, p1 + 1, ExprV::Number(y)) == (ExprOut::Parsed {
        e: inner,
        pos: 5,
    }));
    assert(spec_bin_expr(t, 5, tab, 0, outer) == (ExprOut::Parsed { e: outer, pos: 5 }));
    assert(spec_bin_expr(t, 1, tab, 0, ExprV::Number(x)) == (ExprOut::Parsed {
        e: outer,
        pos: 5,
    }));
    assert(spec_expr(t, 0, tab) == spec_bin_expr(t, 1, tab, 0, ExprV::Number(x)));
}

/// Parentheses override precedence: `(x o1 y) o2 z` groups the
/// parenthesized pair first, whatever the two registered precedences are.
pub proof fn lemma_parens_override_precedence(
    x: Seq<char>,
    o1: char,
    y: Seq<char>,
    o2: char,
    z: Seq<char>,
    tab: Map<char, int>,
)
    requires
        tab.contains_key(o1),
        tab.contains_key(o2),
        tab[o1] >= 0,
        tab[o2] >= 0,
    ensures
        ({
            let t = seq![
                TokenV::LParen,
                TokenV::Number(x),
                TokenV::Op(o1),
                TokenV::Number(y),
                TokenV::RParen,
                TokenV::Op(o2),
                TokenV::Number(z),
            ];
            spec_expr(t, 0, tab) == (ExprOut::Parsed {
                e: (ExprV::Binary {
                    op: o2,
                    lhs: Box::new(
                        ExprV::Binary {
                            op: o1,
                            lhs: Box::new(ExprV::Number(x)),
                            rhs: Box::new(ExprV::Number(y)),
                        },
                    ),
                    rhs: Box::new(ExprV::Number(z)),
                }),
                pos: 7,
            })
        }),
{
    let t = seq![
        TokenV::LParen,
        TokenV::Number(x),
        TokenV::Op(o1),
        TokenV::Number(y),
        TokenV::RParen,
        TokenV::Op(o2),
        TokenV::Number(z),
    ];
    let p1 = tab[o1];
    let p2 = tab[o2];
    let inner = ExprV::Binary {
        op: o1,
        lhs: Box::new(ExprV::Number(x)),
        rhs: Box::new(ExprV::Number(y)),
    };
    let outer = ExprV::Binary { op: o2, lhs: Box::new(inner), rhs: Box::new(ExprV::Number(z)) };
    assert(spec_unary_expr(t, 1, tab) == (ExprOut::Parsed { e: ExprV::Number(x), pos: 2 }));
    assert(spec_unary_expr(t, 3, tab) == (ExprOut::Parsed { e: ExprV::Number(y), pos: 4 }));
    assert(t[6] == TokenV::Number(z));
    assert(spec_num_expr(t, 6) == (ExprOut::Parsed { e: ExprV::Number(z), pos: 7 }));
    assert(spec_primary(t, 6, tab) == (ExprOut::Parsed { e: ExprV::Number(z), pos: 7 }));
    assert(spec_unary_expr(t, 6, tab) == (ExprOut::Parsed { e: ExprV::Number(z), pos: 7 }));
    assert(spec_tok_prec(t, 2, tab) == p1);
    assert(spec_tok_prec(t, 4, tab) == -1);
    assert(spec_tok_prec(t, 5, tab) == p2);
    assert(spec_tok_prec(t, 7, tab) == -1);
    assert(spec_bin_expr(t, 4, tab, 0, inner) == (ExprOut::Parsed { e: inner, pos: 4 }));
    assert(spec_bin_expr(t, 2, tab, 0, ExprV::Number(x)) == (ExprOut::Parsed {
        e: inner,
        pos: 4,
    }));
    assert(spec_expr(t, 1, tab) == (ExprOut::Parsed { e: inner, pos: 4 }));
    assert(spec_paren_expr(t, 0, tab) == (ExprOut::Parsed { e: inner, pos: 5 }));
    assert(spec_primary(t, 0, tab) == (ExprOut::Parsed { e: inner, pos: 5 }));
    assert(spec_unary_expr(t, 0, tab) == (ExprOut::Parsed { e: inner, pos: 5 }));
    assert(spec_bin_expr(t, 7, tab, 0, outer) == (ExprOut::Parsed { e: outer, pos: 7 }));
    assert(spec_bin_expr(t, 5, tab, 0, inner) == (ExprOut::Parsed { e: outer, pos: 7 }));
    assert(spec_expr(t, 0, tab) == spec_bin_expr(t, 5, tab, 0, inner));
}

/// A leading operator character is a prefix application: it parses as a
/// call to its synthesized `unary` name whose one argument is whatever the
/// rest parses to.
pub proof fn lemma_unary_operator_is_call(t: Seq<TokenV>, pos: int, tab: Map<char, int>, c: char)
    requires
        0 <= pos < t.len(),
        t[pos] == TokenV::Op(c),
    ensures
        spec_unary_expr(t, pos, tab) == (match spec_unary_expr(t, pos + 1, tab) {
            ExprOut::Parsed { e, pos: p } => ExprOut::Parsed {
                e: (ExprV::Call { name: unary_name(c), args: seq![e] }),
                pos: p,
            },
            err => err,
        }),
{
}

/// A custom-operator declaration `def binary c prec ...` registers `c` at
/// the declared precedence in the shared table — also when the rest of the
/// declaration fails to parse. With the equal- and mixed-precedence laws
/// above, the operator is from then on usable as an infix operator by every
/// parse sharing the table.
pub proof fn lemma_custom_operator_registers(
    t: Seq<TokenV>,
    tab: Map<char, int>,
    c: char,
    txt: Seq<char>,
)
    requires
        t.len() >= 5,
        t[0] == TokenV::Def,
        t[1] == TokenV::Binary,
        t[2] == TokenV::Op(c),
        t[3] == TokenV::Number(txt),
    ensures
        ({
            let o = spec_definition(t, 0, tab);
            let registered = tab.insert(c, dec_val(txt));
            match o {
                FnOut::Parsed { f, pos, tab: tb } => tb == registered,
                FnOut::Failed { err, pos, tab: tb } => tb == registered,
            }
        }),
{
    let registered = tab.insert(c, dec_val(txt));
    assert(spec_prototype(t, 1, tab) == spec_proto_tail(
        t,
        4,
        registered,
        crate::grammar::binary_name(c),
        true,
        dec_val(txt),
    ));
    let tail = spec_proto_tail(t, 4, registered, crate::grammar::binary_name(c), true, dec_val(txt));
    assert(match tail {
        ProtoOut::Parsed { p, pos, tab: tb } => tb == registered,
        ProtoOut::Failed { err, pos, tab: tb } => tb == registered,
    });
}

} // verus!
