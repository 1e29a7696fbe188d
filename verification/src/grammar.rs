//! The meaning of the grammar: total spec functions that define, token by
//! token, what each parsing routine produces — the node built, the cursor
//! position after it, the updated precedence table, and which error is
//! reported on which input. The executable parser is verified to return
//! exactly these values.
//!
//! Positions handed back by a sub-parse are passed through `clamp_pos` so
//! that termination is evident from the text alone; the clamps never change
//! a value actually produced, since every successful sub-parse moves the
//! cursor forward and stays within the buffer.

use vstd::prelude::*;

use crate::ast::{ExprV, FunctionV, PrototypeV};
use crate::error::ErrorV;
use crate::lexer::is_digit;
use crate::token::TokenV;

verus! {

/// The end-of-file error with its standard message.
pub open spec fn eof_err() -> ErrorV {
    ErrorV::Eof("Unexpected end of file."@)
}

/// The synthesized name of a unary-operator function: `unary` followed by
/// the operator character.
pub open spec fn unary_name(op: char) -> Seq<char> {
    "unary"@.push(op)
}

/// The synthesized name of a custom binary operator: `binary` followed by
/// the operator character.
pub open spec fn binary_name(op: char) -> Seq<char> {
    "binary"@.push(op)
}

/// `p` clamped into `[lo, len]`; the identity whenever `lo <= p <= len`.
pub open spec fn clamp_pos(len: int, lo: int, p: int) -> int {
    let m = if p < lo {
        lo
    } else {
        p
    };
    if m > len {
        len
    } else {
        m
    }
}

/// The value of the leading run of decimal digits of `s`, saturating at the
/// largest precedence the table can hold.
pub open spec fn dec_val_from(s: Seq<char>, i: int, acc: int) -> int
    decreases s.len() - i when 0 <= i <= s.len()
{
    if i >= s.len() {
        acc
    } else if !is_digit(s[i]) {
        acc
    } else {
        let d = s[i] as u32 - 48;
        let next = if acc * 10 + d > 2147483647 {
            2147483647int
        } else {
            acc * 10 + d
        };
        dec_val_from(s, i + 1, next)
    }
}

/// The declared precedence carried by a numeric literal: the value of its
/// leading decimal digits, saturating at the largest precedence the table
/// can hold.
pub open spec fn dec_val(s: Seq<char>) -> int {
    dec_val_from(s, 0, 0)
}

/// The precedence of the token at `pos`: the registered precedence of an
/// operator character, `-1` for anything else (including the end of the
/// buffer), which stops precedence climbing.
pub open spec fn spec_tok_prec(t: Seq<TokenV>, pos: int, tab: Map<char, int>) -> int {
    if 0 <= pos < t.len() {
        match t[pos] {
            TokenV::Op(op) => if tab.contains_key(op) {
                tab[op]
            } else {
                -1
            },
            _ => -1,
        }
    } else {
        -1
    }
}

/// The outcome of parsing one expression: the node and the cursor after it,
/// or the error and the cursor where parsing stopped. Expression parsing
/// never changes the precedence table.
pub enum ExprOut {
    Parsed { e: ExprV, pos: int },
    Failed { err: ErrorV, pos: int },
}

/// The outcome of parsing a call's argument list (from the first argument
/// through the closing parenthesis).
pub enum ArgsOut {
    Parsed { args: Seq<ExprV>, pos: int },
    Failed { err: ErrorV, pos: int },
}

/// The outcome of parsing a prototype's parameter list.
pub enum ParamsOut {
    Parsed { args: Seq<Seq<char>>, pos: int },
    Failed { err: ErrorV, pos: int },
}

/// The outcome of parsing a prototype, with the (possibly grown) precedence
/// table: a custom-operator declaration registers its operator even when the
/// prototype fails later.
pub enum ProtoOut {
    Parsed { p: PrototypeV, pos: int, tab: Map<char, int> },
    Failed { err: ErrorV, pos: int, tab: Map<char, int> },
}

/// The outcome of parsing one top-level construct.
pub enum FnOut {
    Parsed { f: FunctionV, pos: int, tab: Map<char, int> },
    Failed { err: ErrorV, pos: int, tab: Map<char, int> },
}

/// A literal number expression: the number token's text, cursor moved past
/// it.
pub open spec fn spec_num_expr(t: Seq<TokenV>, pos: int) -> ExprOut {
    if pos >= t.len() {
        ExprOut::Failed { err: eof_err(), pos }
    } else {
        match t[pos] {
            TokenV::Number(txt) => ExprOut::Parsed { e: ExprV::Number(txt), pos: pos + 1 },
            _ => ExprOut::Failed { err: ErrorV::Syntax("expected number literal."@), pos },
        }
    }
}

/// `expression ::= unary binop-rhs`, climbing from minimum precedence 0.
pub open spec fn spec_expr(t: Seq<TokenV>, pos: int, tab: Map<char, int>) -> ExprOut
    decreases t.len() - pos, 4int when 0 <= pos <= t.len()
{
    match spec_unary_expr(t, pos, tab) {
        ExprOut::Parsed { e, pos: p1 } => spec_bin_expr(
            t,
            clamp_pos(t.len() as int, pos + 1, p1),
            tab,
            0,
            e,
        ),
        err => err,
    }
}

/// `unary ::= op unary | primary`: a leading operator character becomes a
/// call to its synthesized `unary` name with one argument.
pub open spec fn spec_unary_expr(t: Seq<TokenV>, pos: int, tab: Map<char, int>) -> ExprOut
    decreases t.len() - pos, 3int when 0 <= pos <= t.len()
{
    if pos >= t.len() {
        ExprOut::Failed { err: eof_err(), pos }
    } else {
        match t[pos] {
            TokenV::Op(op) => match spec_unary_expr(t, pos + 1, tab) {
                ExprOut::Parsed { e, pos: p2 } => ExprOut::Parsed {
                    e: ExprV::Call { name: unary_name(op), args: seq![e] },
                    pos: p2,
                },
                err => err,
            },
            _ => spec_primary(t, pos, tab),
        }
    }
}

/// `primary ::= identifier-expr | number | paren-expr`.
pub open spec fn spec_primary(t: Seq<TokenV>, pos: int, tab: Map<char, int>) -> ExprOut
    decreases t.len() - pos, 2int when 0 <= pos <= t.len()
{
    if pos >= t.len() {
        ExprOut::Failed { err: eof_err(), pos }
    } else {
        match t[pos] {
            TokenV::Ident(_) => spec_ident_expr(t, pos, tab),
            TokenV::Number(_) => spec_num_expr(t, pos),
            TokenV::LParen => spec_paren_expr(t, pos, tab),
            _ => ExprOut::Failed {
                err: ErrorV::Syntax("unknown token when expecting an expression"@),
                pos,
            },
        }
    }
}

/// An identifier: a bare variable reference, or — when an opening
/// parenthesis immediately follows — a call with a comma-separated,
/// possibly-empty argument list.
pub open spec fn spec_ident_expr(t: Seq<TokenV>, pos: int, tab: Map<char, int>) -> ExprOut
    decreases t.len() - pos, 1int when 0 <= pos <= t.len()
{
    if pos >= t.len() {
        ExprOut::Failed { err: eof_err(), pos }
    } else {
        match t[pos] {
            TokenV::Ident(name) => if pos + 1 >= t.len() {
                ExprOut::Parsed { e: ExprV::Variable(name), pos: pos + 1 }
            } else if t[pos + 1] is LParen {
                if pos + 2 >= t.len() {
                    ExprOut::Failed { err: eof_err(), pos: pos + 2 }
                } else if t[pos + 2] is RParen {
                    ExprOut::Parsed {
                        e: ExprV::Call { name, args: Seq::empty() },
                        pos: pos + 3,
                    }
                } else {
                    match spec_call_args(t, pos + 2, tab, Seq::empty()) {
                        ArgsOut::Parsed { args, pos: p } => ExprOut::Parsed {
                            e: ExprV::Call { name, args },
                            pos: p,
                        },
                        ArgsOut::Failed { err, pos: p } => ExprOut::Failed { err, pos: p },
                    }
                }
            } else {
                ExprOut::Parsed { e: ExprV::Variable(name), pos: pos + 1 }
            },
            _ => ExprOut::Failed { err: ErrorV::Syntax("Expected identifier"@), pos },
        }
    }
}

/// The arguments of a call, one expression at a time, separated by commas
/// and closed by a parenthesis (which is consumed).
pub open spec fn spec_call_args(
    t: Seq<TokenV>,
    pos: int,
    tab: Map<char, int>,
    acc: Seq<ExprV>,
) -> ArgsOut
    decreases t.len() - pos, 5int when 0 <= pos <= t.len()
{
    match spec_expr(t, pos, tab) {
        ExprOut::Failed { err, pos: p } => ArgsOut::Failed { err, pos: p },
        ExprOut::Parsed { e, pos: p2r } => {
            let p2 = clamp_pos(t.len() as int, pos + 1, p2r);
            if p2 >= t.len() {
                ArgsOut::Failed { err: eof_err(), pos: p2 }
            } else {
                match t[p2] {
                    TokenV::Comma => spec_call_args(t, p2 + 1, tab, acc.push(e)),
                    TokenV::RParen => ArgsOut::Parsed { args: acc.push(e), pos: p2 + 1 },
                    _ => ArgsOut::Failed {
                        err: ErrorV::Syntax("Expected ',' character in function call."@),
                        pos: p2,
                    },
                }
            }
        },
    }
}

/// `paren-expr ::= '(' expression ')'`.
pub open spec fn spec_paren_expr(t: Seq<TokenV>, pos: int, tab: Map<char, int>) -> ExprOut
    decreases t.len() - pos, 1int when 0 <= pos <= t.len()
{
    if pos >= t.len() {
        ExprOut::Failed { err: eof_err(), pos }
    } else if !(t[pos] is LParen) {
        ExprOut::Failed {
            err: ErrorV::Syntax("Expected '(' character at start of parenthesized expression."@),
            pos,
        }
    } else {
        match spec_expr(t, pos + 1, tab) {
            ExprOut::Failed { err, pos: p } => ExprOut::Failed { err, pos: p },
            ExprOut::Parsed { e, pos: p2 } => if p2 >= t.len() {
                ExprOut::Failed { err: eof_err(), pos: p2 }
            } else if !(t[p2] is RParen) {
                ExprOut::Failed {
                    err: ErrorV::Syntax(
                        "Expected ')' character at end of parenthesized expression."@,
                    ),
                    pos: p2,
                }
            } else {
                ExprOut::Parsed { e, pos: p2 + 1 }
            },
        }
    }
}

/// Precedence climbing over a left-hand expression: while the current token
/// is an operator binding at least `minprec`, consume it, parse the
/// right-hand unary expression, let a tighter-binding following operator
/// claim that right-hand side first, and fold left-associatively.
pub open spec fn spec_bin_expr(
    t: Seq<TokenV>,
    pos: int,
    tab: Map<char, int>,
    minprec: int,
    lhs: ExprV,
) -> ExprOut
    decreases t.len() - pos, 0int when 0 <= pos <= t.len()
{
    let cp = spec_tok_prec(t, pos, tab);
    if cp < minprec || pos >= t.len() {
        ExprOut::Parsed { e: lhs, pos }
    } else {
        match t[pos] {
            TokenV::Op(op) => match spec_unary_expr(t, pos + 1, tab) {
                ExprOut::Failed { err, pos: p } => ExprOut::Failed { err, pos: p },
                ExprOut::Parsed { e: rhs, pos: p2r } => {
                    let p2 = clamp_pos(t.len() as int, pos + 1, p2r);
                    let np = spec_tok_prec(t, p2, tab);
                    if cp < np {
                        match spec_bin_expr(t, p2, tab, cp + 1, rhs) {
                            ExprOut::Failed { err, pos: p } => ExprOut::Failed { err, pos: p },
                            ExprOut::Parsed { e: rhs2, pos: p3r } => {
                                let p3 = clamp_pos(t.len() as int, pos + 1, p3r);
                                spec_bin_expr(
                                    t,
                                    p3,
                                    tab,
                                    minprec,
                                    ExprV::Binary { op, lhs: Box::new(lhs), rhs: Box::new(rhs2) },
                                )
                            },
                        }
                    } else {
                        spec_bin_expr(
                            t,
                            p2,
                            tab,
                            minprec,
                            ExprV::Binary { op, lhs: Box::new(lhs), rhs: Box::new(rhs) },
                        )
                    }
                },
            },
            _ => ExprOut::Failed { err: ErrorV::Syntax("Invalid operator."@), pos },
        }
    }
}

/// A prototype's parameter list, from its first name through the closing
/// parenthesis.
pub open spec fn spec_proto_params(t: Seq<TokenV>, pos: int, acc: Seq<Seq<char>>) -> ParamsOut
    decreases t.len() - pos when 0 <= pos <= t.len()
{
    if pos >= t.len() {
        ParamsOut::Failed { err: eof_err(), pos }
    } else {
        match t[pos] {
            TokenV::Ident(nm) => if pos + 1 >= t.len() {
                ParamsOut::Failed { err: eof_err(), pos: pos + 1 }
            } else {
                match t[pos + 1] {
                    TokenV::RParen => ParamsOut::Parsed { args: acc.push(nm), pos: pos + 2 },
                    TokenV::Comma => spec_proto_params(t, pos + 2, acc.push(nm)),
                    _ => ParamsOut::Failed {
                        err: ErrorV::Syntax(
                            "Expected ',' or ')' character in prototype declaration."@,
                        ),
                        pos: pos + 1,
                    },
                }
            },
            _ => ParamsOut::Failed {
                err: ErrorV::Syntax("Expected identifier in parameter declaration."@),
                pos,
            },
        }
    }
}

/// The tail of a prototype after its name: the parenthesized parameter
/// list.
pub open spec fn spec_proto_tail(
    t: Seq<TokenV>,
    pos: int,
    tab: Map<char, int>,
    name: Seq<char>,
    is_op: bool,
    prec: int,
) -> ProtoOut {
    if pos >= t.len() {
        ProtoOut::Failed { err: eof_err(), pos, tab }
    } else if !(t[pos] is LParen) {
        ProtoOut::Failed {
            err: ErrorV::Syntax("Expected '(' character in prototype declaration."@),
            pos,
            tab,
        }
    } else if pos + 1 >= t.len() {
        ProtoOut::Failed { err: eof_err(), pos: pos + 1, tab }
    } else if t[pos + 1] is RParen {
        ProtoOut::Parsed {
            p: PrototypeV { name, args: Seq::empty(), prec, is_op },
            pos: pos + 2,
            tab,
        }
    } else {
        match spec_proto_params(t, pos + 1, Seq::empty()) {
            ParamsOut::Parsed { args, pos: p } => ProtoOut::Parsed {
                p: PrototypeV { name, args, prec, is_op },
                pos: p,
                tab,
            },
            ParamsOut::Failed { err, pos: p } => ProtoOut::Failed { err, pos: p, tab },
        }
    }
}

/// `prototype ::= id '(' id* ')' | 'binary' op number? '(' id* ')'`. The
/// custom-operator form synthesizes the `binary` name, reads the optional
/// declared precedence (0 when absent), and registers the operator in the
/// table before the parameter list is read — so the registration stands even
/// when the rest of the prototype fails.
pub open spec fn spec_prototype(t: Seq<TokenV>, pos: int, tab: Map<char, int>) -> ProtoOut {
    if pos >= t.len() {
        ProtoOut::Failed { err: eof_err(), pos, tab }
    } else {
        match t[pos] {
            TokenV::Ident(id) => spec_proto_tail(t, pos + 1, tab, id, false, 0),
            TokenV::Binary => if pos + 1 >= t.len() {
                ProtoOut::Failed { err: eof_err(), pos: pos + 1, tab }
            } else {
                match t[pos + 1] {
                    TokenV::Op(op) => if pos + 2 >= t.len() {
                        ProtoOut::Failed { err: eof_err(), pos: pos + 2, tab }
                    } else {
                        let pr = match t[pos + 2] {
                            TokenV::Number(txt) => dec_val(txt),
                            _ => 0,
                        };
                        let p3 = match t[pos + 2] {
                            TokenV::Number(_) => pos + 3,
                            _ => pos + 2,
                        };
                        spec_proto_tail(t, p3, tab.insert(op, pr), binary_name(op), true, pr)
                    },
                    _ => ProtoOut::Failed {
                        err: ErrorV::Syntax("Expected operator in custom operator declaration."@),
                        pos: pos + 1,
                        tab,
                    },
                }
            },
            _ => ProtoOut::Failed {
                err: ErrorV::Syntax("Expected identifier in prototype declaration."@),
                pos,
                tab,
            },
        }
    }
}

/// `definition ::= 'def' prototype expression`. The body is parsed against
/// the table as the prototype left it, so a custom operator may appear in
/// its own definition's body.
pub open spec fn spec_definition(t: Seq<TokenV>, pos: int, tab: Map<char, int>) -> FnOut {
    let p1 = if pos < t.len() {
        pos + 1
    } else {
        pos
    };
    match spec_prototype(t, p1, tab) {
        ProtoOut::Failed { err, pos: p, tab: tb } => FnOut::Failed { err, pos: p, tab: tb },
        ProtoOut::Parsed { p: proto, pos: p2, tab: tb } => match spec_expr(t, p2, tb) {
            ExprOut::Failed { err, pos: p } => FnOut::Failed { err, pos: p, tab: tb },
            ExprOut::Parsed { e, pos: p3 } => FnOut::Parsed {
                f: FunctionV { proto, body: Some(e), is_anon: false },
                pos: p3,
                tab: tb,
            },
        },
    }
}

/// `extern ::= 'extern' prototype`: a declaration without a body.
pub open spec fn spec_extern(t: Seq<TokenV>, pos: int, tab: Map<char, int>) -> FnOut {
    let p1 = if pos < t.len() {
        pos + 1
    } else {
        pos
    };
    match spec_prototype(t, p1, tab) {
        ProtoOut::Failed { err, pos: p, tab: tb } => FnOut::Failed { err, pos: p, tab: tb },
        ProtoOut::Parsed { p: proto, pos: p2, tab: tb } => FnOut::Parsed {
            f: FunctionV { proto, body: None, is_anon: false },
            pos: p2,
            tab: tb,
        },
    }
}

/// The synthetic prototype wrapped around a bare top-level expression.
pub open spec fn anon_proto() -> PrototypeV {
    PrototypeV { name: "anon"@, args: Seq::empty(), prec: 0, is_op: false }
}

/// A bare top-level expression, wrapped in an anonymous function record.
pub open spec fn spec_toplevel_expr(t: Seq<TokenV>, pos: int, tab: Map<char, int>) -> FnOut {
    match spec_expr(t, pos, tab) {
        ExprOut::Failed { err, pos: p } => FnOut::Failed { err, pos: p, tab },
        ExprOut::Parsed { e, pos: p } => FnOut::Parsed {
            f: FunctionV { proto: anon_proto(), body: Some(e), is_anon: true },
            pos: p,
            tab,
        },
    }
}

/// One whole parse: dispatch on the first token, then demand that the
/// construct consumed the entire buffer.
pub open spec fn spec_parse(t: Seq<TokenV>, pos: int, tab: Map<char, int>) -> FnOut {
    if pos >= t.len() {
        FnOut::Failed { err: eof_err(), pos, tab }
    } else {
        let r = match t[pos] {
            TokenV::Def => spec_definition(t, pos, tab),
            TokenV::Extern => spec_extern(t, pos, tab),
            _ => spec_toplevel_expr(t, pos, tab),
        };
        match r {
            FnOut::Parsed { f, pos: p, tab: tb } => if p >= t.len() {
                r
            } else {
                FnOut::Failed {
                    err: ErrorV::Eof("Unexpected token after parsed expression."@),
                    pos: p,
                    tab: tb,
                }
            },
            err => err,
        }
    }
}

} // verus!
