//! A spec-level rendering of an expression back into tokens — fully
//! parenthesized, so precedences cannot regroup it — and the proof that
//! re-parsing the rendering reproduces the tree exactly.

use vstd::prelude::*;

use crate::ast::{ExprV, FunctionV};
use crate::grammar::{
    anon_proto, spec_call_args, spec_expr, spec_ident_expr, spec_num_expr, spec_paren_expr,
    spec_primary, spec_tok_prec, spec_toplevel_expr, spec_unary_expr, ArgsOut, ExprOut, FnOut,
};
use crate::token::TokenV;

verus! {

broadcast use vstd::seq::axiom_seq_index_decreases, vstd::seq::axiom_seq_subrange_decreases;

/// The tokens of a fully parenthesized rendering of `e`.
pub open spec fn expr_tokens(e: ExprV) -> Seq<TokenV>
    decreases e,
{
    match e {
        ExprV::Number(txt) => seq![TokenV::Number(txt)],
        ExprV::Variable(nm) => seq![TokenV::Ident(nm)],
        ExprV::Call { name, args } => if args.len() == 0 {
            seq![TokenV::Ident(name), TokenV::LParen, TokenV::RParen]
        } else {
            seq![TokenV::Ident(name), TokenV::LParen] + args_tokens(args)
        },
        ExprV::Binary { op, lhs, rhs } => seq![TokenV::LParen] + expr_tokens(*lhs) + seq![
            TokenV::Op(op),
        ] + expr_tokens(*rhs) + seq![TokenV::RParen],
    }
}

/// The tokens of a non-empty argument list: the arguments separated by
/// commas, closed by the parenthesis.
pub open spec fn args_tokens(args: Seq<ExprV>) -> Seq<TokenV>
    decreases args,
{
    if args.len() == 0 {
        seq![TokenV::RParen]
    } else if args.len() == 1 {
        expr_tokens(args[0]) + seq![TokenV::RParen]
    } else {
        expr_tokens(args[0]) + seq![TokenV::Comma] + args_tokens(args.drop_first())
    }
}

/// Every operator in `e` is registered with a non-negative precedence —
/// what re-parsing a rendering needs of the table.
pub open spec fn printable(e: ExprV, tab: Map<char, int>) -> bool
    decreases e,
{
    match e {
        ExprV::Number(_) => true,
        ExprV::Variable(_) => true,
        ExprV::Call { name, args } => printable_all(args, tab),
        ExprV::Binary { op, lhs, rhs } => tab.contains_key(op) && tab[op] >= 0 && printable(
            *lhs,
            tab,
        ) && printable(*rhs, tab),
    }
}

/// `printable`, over each element of a sequence.
pub open spec fn printable_all(args: Seq<ExprV>, tab: Map<char, int>) -> bool
    decreases args,
{
    if args.len() == 0 {
        true
    } else {
        printable(args[0], tab) && printable_all(args.drop_first(), tab)
    }
}

/// What may follow a rendered expression without changing how it parses: a
/// closing parenthesis, a comma, an operator, or nothing.
pub open spec fn follower_ok(t: Seq<TokenV>, k: int) -> bool {
    k >= t.len() || t[k] is RParen || t[k] is Comma || t[k] is Op
}

/// A rendering is never empty and never starts with a token that could
/// close or continue an enclosing construct.
pub proof fn lemma_tokens_head(e: ExprV)
    ensures
        expr_tokens(e).len() >= 1,
        expr_tokens(e)[0] is Number || expr_tokens(e)[0] is Ident || expr_tokens(e)[0]
            is LParen,
{
    match e {
        ExprV::Number(_) => {},
        ExprV::Variable(_) => {},
        ExprV::Call { name, args } => {},
        ExprV::Binary { op, lhs, rhs } => {},
    }
}

/// Re-parsing a rendered expression as a unary expression yields the tree
/// back, with the cursor just past the rendering.
#[verifier::rlimit(100)]
pub proof fn lemma_unary_reparse(e: ExprV, t: Seq<TokenV>, pos: int, tab: Map<char, int>)
    requires
        printable(e, tab),
        0 <= pos,
        pos + expr_tokens(e).len() <= t.len(),
        t.subrange(pos, pos + expr_tokens(e).len() as int) == expr_tokens(e),
        follower_ok(t, pos + expr_tokens(e).len() as int),
    ensures
        spec_unary_expr(t, pos, tab) == (ExprOut::Parsed {
            e,
            pos: pos + expr_tokens(e).len(),
        }),
    decreases e, 1int,
{
    let toks = expr_tokens(e);
    let n = toks.len() as int;
    assert forall|i: int| 0 <= i < n implies t[pos + i] == toks[i] by {
        assert(t.subrange(pos, pos + n)[i] == t[pos + i]);
    }
    match e {
        ExprV::Number(txt) => {
            assert(t[pos] == TokenV::Number(txt));
            assert(spec_num_expr(t, pos) == (ExprOut::Parsed { e, pos: pos + 1 }));
            assert(spec_primary(t, pos, tab) == (ExprOut::Parsed { e, pos: pos + 1 }));
        },
        ExprV::Variable(nm) => {
            assert(t[pos] == TokenV::Ident(nm));
            assert(spec_ident_expr(t, pos, tab) == (ExprOut::Parsed { e, pos: pos + 1 }));
            assert(spec_primary(t, pos, tab) == (ExprOut::Parsed { e, pos: pos + 1 }));
        },
        ExprV::Call { name, args } => {
            assert(toks[0] == TokenV::Ident(name));
            assert(t[pos + 0] == toks[0]);
            assert(toks[1] == TokenV::LParen);
            assert(t[pos + 1] == toks[1]);
            if args.len() == 0 {
                assert(toks[2] == TokenV::RParen);
                assert(t[pos + 2] == toks[2]);
                assert(args =~= Seq::<ExprV>::empty());
                assert(spec_ident_expr(t, pos, tab) == (ExprOut::Parsed { e, pos: pos + 3 }));
            } else {
                let at = args_tokens(args);
                assert(toks == seq![TokenV::Ident(name), TokenV::LParen] + at);
                assert forall|i: int| 0 <= i < at.len() implies t[pos + 2 + i] == at[i] by {
                    assert(toks[2 + i] == at[i]);
                }
                assert(t.subrange(pos + 2, pos + 2 + at.len() as int) =~= at);
                lemma_tokens_head(args[0]);
                assert(at[0] == expr_tokens(args[0])[0]) by {
                    if args.len() == 1 {
                        assert(at == expr_tokens(args[0]) + seq![TokenV::RParen]);
                    }
                }
                assert(!(t[pos + 2] is RParen));
                lemma_args_reparse(args, Seq::empty(), t, pos + 2, tab);
                assert(Seq::<ExprV>::empty() + args =~= args);
                assert(spec_call_args(t, pos + 2, tab, Seq::empty()) == (ArgsOut::Parsed {
                    args,
                    pos: pos + n,
                }));
                assert(spec_ident_expr(t, pos, tab) == (ExprOut::Parsed { e, pos: pos + n }));
            }
            assert(spec_primary(t, pos, tab) == (ExprOut::Parsed { e, pos: pos + n }));
        },
        ExprV::Binary { op, lhs, rhs } => {
            let lt = expr_tokens(*lhs);
            let rt = expr_tokens(*rhs);
            let ln = lt.len() as int;
            let rn = rt.len() as int;
            let pl = pos + 1 + ln;
            let pr = pl + 1 + rn;
            assert(toks == seq![TokenV::LParen] + lt + seq![TokenV::Op(op)] + rt + seq![
                TokenV::RParen,
            ]);
            assert(n == ln + rn + 3);
            assert(toks[0] == TokenV::LParen);
            assert(t[pos + 0] == toks[0]);
            assert forall|i: int| 0 <= i < ln implies t[pos + 1 + i] == lt[i] by {
                assert(toks[1 + i] == lt[i]);
            }
            assert(t.subrange(pos + 1, pos + 1 + ln) =~= lt);
            assert(t[pl] == TokenV::Op(op)) by {
                assert(toks[1 + ln] == TokenV::Op(op));
            }
            assert forall|i: int| 0 <= i < rn implies t[pl + 1 + i] == rt[i] by {
                assert(toks[2 + ln + i] == rt[i]);
            }
            assert(t.subrange(pl + 1, pl + 1 + rn) =~= rt);
            assert(t[pr] == TokenV::RParen) by {
                assert(toks[n - 1] == TokenV::RParen);
            }
            lemma_unary_reparse(*lhs, t, pos + 1, tab);
            lemma_unary_reparse(*rhs, t, pl + 1, tab);
            assert(spec_tok_prec(t, pl, tab) == tab[op]);
            assert(spec_tok_prec(t, pr, tab) == -1);
            assert(spec_expr(t, pos + 1, tab) == (ExprOut::Parsed { e, pos: pr }));
            assert(spec_paren_expr(t, pos, tab) == (ExprOut::Parsed { e, pos: pr + 1 }));
            assert(spec_primary(t, pos, tab) == (ExprOut::Parsed { e, pos: pos + n }));
        },
    }
}

/// Re-parsing a rendered argument list appends exactly those arguments.
pub proof fn lemma_args_reparse(
    args: Seq<ExprV>,
    acc: Seq<ExprV>,
    t: Seq<TokenV>,
    pos: int,
    tab: Map<char, int>,
)
    requires
        args.len() >= 1,
        printable_all(args, tab),
        0 <= pos,
        pos + args_tokens(args).len() <= t.len(),
        t.subrange(pos, pos + args_tokens(args).len() as int) == args_tokens(args),
    ensures
        spec_call_args(t, pos, tab, acc) == (ArgsOut::Parsed {
            args: acc + args,
            pos: pos + args_tokens(args).len(),
        }),
    decreases args, 0int,
{
    let at = args_tokens(args);
    let m = at.len() as int;
    let a0 = args[0];
    let et = expr_tokens(a0);
    let en = et.len() as int;
    assert forall|i: int| 0 <= i < m implies t[pos + i] == at[i] by {
        assert(t.subrange(pos, pos + m)[i] == t[pos + i]);
    }
    lemma_tokens_head(a0);
    if args.len() == 1 {
        assert(at == et + seq![TokenV::RParen]);
        assert forall|i: int| 0 <= i < en implies t[pos + i] == et[i] by {
            assert(at[i] == et[i]);
        }
        assert(t.subrange(pos, pos + en) =~= et);
        assert(t[pos + en] == TokenV::RParen) by {
            assert(at[m - 1] == TokenV::RParen);
        }
        lemma_expr_reparse(a0, t, pos, tab);
        assert(spec_call_args(t, pos, tab, acc) == (ArgsOut::Parsed {
            args: acc.push(a0),
            pos: pos + en + 1,
        }));
        assert(acc.push(a0) =~= acc + args) by {
            assert(args =~= seq![a0]);
        }
    } else {
        let rest = args.drop_first();
        let rt = args_tokens(rest);
        assert(at == et + seq![TokenV::Comma] + rt);
        assert forall|i: int| 0 <= i < en implies t[pos + i] == et[i] by {
            assert(at[i] == et[i]);
        }
        assert(t.subrange(pos, pos + en) =~= et);
        assert(t[pos + en] == TokenV::Comma) by {
            assert(at[en] == TokenV::Comma);
        }
        lemma_expr_reparse(a0, t, pos, tab);
        assert forall|i: int| 0 <= i < rt.len() implies t[pos + en + 1 + i] == rt[i] by {
            assert(at[en + 1 + i] == rt[i]);
        }
        assert(t.subrange(pos + en + 1, pos + en + 1 + rt.len() as int) =~= rt);
        lemma_args_reparse(rest, acc.push(a0), t, pos + en + 1, tab);
        assert(spec_call_args(t, pos, tab, acc) == spec_call_args(
            t,
            pos + en + 1,
            tab,
            acc.push(a0),
        ));
        assert(acc.push(a0) + rest =~= acc + args);
        assert(pos + en + 1 + rt.len() == pos + m);
    }
}

/// Re-parsing a rendered expression as a whole expression — when nothing
/// follows that could continue it as a binary chain — yields the tree back.
pub proof fn lemma_expr_reparse(e: ExprV, t: Seq<TokenV>, pos: int, tab: Map<char, int>)
    requires
        printable(e, tab),
        0 <= pos,
        pos + expr_tokens(e).len() <= t.len(),
        t.subrange(pos, pos + expr_tokens(e).len() as int) == expr_tokens(e),
        follower_ok(t, pos + expr_tokens(e).len() as int),
        spec_tok_prec(t, pos + expr_tokens(e).len() as int, tab) < 0,
    ensures
        spec_expr(t, pos, tab) == (ExprOut::Parsed { e, pos: pos + expr_tokens(e).len() }),
    decreases e, 2int,
{
    lemma_unary_reparse(e, t, pos, tab);
    lemma_tokens_head(e);
}

/// Re-parsing the rendering of an expression tree reproduces the tree
/// exactly, wrapped as a top-level construct, and consumes it whole: the
/// round trip from tree to tokens and back is the identity.
pub proof fn lemma_render_reparse_round_trip(e: ExprV, tab: Map<char, int>)
    requires
        printable(e, tab),
    ensures
        spec_toplevel_expr(expr_tokens(e), 0, tab) == (FnOut::Parsed {
            f: FunctionV { proto: anon_proto(), body: Some(e), is_anon: true },
            pos: expr_tokens(e).len() as int,
            tab,
        }),
{
    let t = expr_tokens(e);
    assert(t.subrange(0, t.len() as int) =~= t);
    lemma_expr_reparse(e, t, 0, tab);
}

} // verus!
