//! The parser: a materialized token buffer, a cursor, and the
//! recursive-descent / precedence-climbing routines. Every routine is
//! verified to return exactly what the grammar's spec functions prescribe —
//! the same node, the same cursor position, the same table update, and the
//! same error on the same input.

use vstd::prelude::*;

use crate::ast::{
    exprs_view, lemma_exprs_view, lemma_exprs_view_push, names_view, Expr, Function, Prototype,
};
use crate::error::{Error, ErrorV};
use crate::grammar::{
    binary_name, clamp_pos, dec_val, dec_val_from, eof_err, spec_bin_expr, spec_call_args,
    spec_definition, spec_expr, spec_extern, spec_ident_expr, spec_num_expr, spec_paren_expr,
    spec_parse, spec_primary, spec_proto_params, spec_prototype, spec_tok_prec,
    spec_toplevel_expr, spec_unary_expr, unary_name, ArgsOut, ExprOut, FnOut, ParamsOut, ProtoOut,
};
use crate::lexer::{is_digit, push_char, spec_tokens, tokens_view, Lexer};
use crate::prec::PrecTable;
use crate::token::{Token, TokenV};

verus! {

/// The outcome `o` prescribed by the grammar is what the call returned: the
/// same node or error, with the cursor left at `pos`.
pub open spec fn expr_out_matches(o: ExprOut, r: Result<Expr, Error>, pos: int) -> bool {
    match r {
        Ok(e) => o == (ExprOut::Parsed { e: e@, pos }),
        Err(er) => o == (ExprOut::Failed { err: er@, pos }),
    }
}

/// As `expr_out_matches`, for a whole top-level construct, with the
/// precedence table the call left behind.
pub open spec fn fn_out_matches(
    o: FnOut,
    r: Result<Function, Error>,
    pos: int,
    tab: Map<char, int>,
) -> bool {
    match r {
        Ok(f) => o == (FnOut::Parsed { f: f@, pos, tab }),
        Err(er) => o == (FnOut::Failed { err: er@, pos, tab }),
    }
}

/// As `expr_out_matches`, for a prototype.
pub open spec fn proto_out_matches(
    o: ProtoOut,
    r: Result<Prototype, Error>,
    pos: int,
    tab: Map<char, int>,
) -> bool {
    match r {
        Ok(p) => o == (ProtoOut::Parsed { p: p@, pos, tab }),
        Err(er) => o == (ProtoOut::Failed { err: er@, pos, tab }),
    }
}

fn eof_error(m: &str) -> (r: Error)
    ensures
        r@ == ErrorV::Eof(m@),
{
    Error::Eof(String::from_str(m))
}

fn err_eof() -> (r: Error)
    ensures
        r@ == eof_err(),
{
    eof_error("Unexpected end of file.")
}

fn err_syntax(m: &str) -> (r: Error)
    ensures
        r@ == ErrorV::Syntax(m@),
{
    Error::Syntax(String::from_str(m))
}

fn unary_name_exec(op: char) -> (r: String)
    ensures
        r@ == unary_name(op),
{
    let mut s = String::from_str("unary");
    push_char(&mut s, op);
    s
}

fn binary_name_exec(op: char) -> (r: String)
    ensures
        r@ == binary_name(op),
{
    let mut s = String::from_str("binary");
    push_char(&mut s, op);
    s
}

fn is_digit_at(st: &str, i: usize) -> (r: bool)
    requires
        i < st@.len(),
    ensures
        r == is_digit(st@[i as int]),
{
    let c = st.get_char(i);
    let u = c as u32;
    48 <= u && u <= 57
}

/// The declared precedence carried by a numeric literal's text: the value of
/// its leading decimal digits, saturating at the largest precedence the
/// table can hold.
fn dec_val_exec(s: &String) -> (r: usize)
    ensures
        r as int == dec_val(s@),
        r <= 2147483647,
{
    let st: &str = s.as_str();
    let n = st.unicode_len();
    let mut acc: u64 = 0;
    let mut i: usize = 0;
    while i < n && is_digit_at(st, i)
        invariant
            n == st@.len(),
            st@ == s@,
            0 <= i <= n,
            acc <= 2147483647,
            dec_val_from(s@, 0, 0) == dec_val_from(s@, i as int, acc as int),
        decreases n - i,
    {
        let c = st.get_char(i);
        let u = c as u32;
        let d = (u - 48) as u64;
        let next = acc * 10 + d;
        acc = if next > 2147483647 {
            2147483647
        } else {
            next
        };
        i += 1;
    }
    acc as usize
}

/// The parser: an immutable, fully materialized token buffer and a cursor.
/// The session's precedence table is passed by reference into each parse
/// call.
pub struct Parser {
    tokens: Vec<Token>,
    pos: usize,
}

impl Parser {
    /// The models of the buffered tokens.
    pub closed spec fn toks(&self) -> Seq<TokenV> {
        tokens_view(self.tokens@)
    }

    /// The cursor position.
    pub closed spec fn cursor(&self) -> int {
        self.pos as int
    }

    /// The cursor never runs past the end of the buffer.
    pub open spec fn wf(&self) -> bool {
        0 <= self.cursor() <= self.toks().len()
    }

    /// Lexes the whole input chunk up front into the token buffer.
    pub fn new(input: &str) -> (r: Parser)
        ensures
            r.toks() == spec_tokens(input@, 0),
            r.cursor() == 0,
            r.wf(),
    {
        let mut lexer = Lexer::new(input);
        let tokens = lexer.tokenize();
        Parser { tokens, pos: 0 }
    }

    /// Whether the parser has consumed its whole buffer.
    pub fn is_eof(&self) -> (r: bool)
        ensures
            r == (self.cursor() >= self.toks().len()),
    {
        self.pos >= self.tokens.len()
    }

    /// The token at the cursor, or an end-of-file error past the end.
    pub fn current(&self) -> (r: Result<Token, Error>)
        requires
            self.wf(),
        ensures
            ({
                let t = self.toks();
                let p = self.cursor();
                &&& p < t.len() ==> (r matches Ok(tok) && tok@ == t[p])
                &&& p >= t.len() ==> (r matches Err(e) && e@ == eof_err())
            }),
    {
        if self.pos >= self.tokens.len() {
            Err(err_eof())
        } else {
            let tok = self.tokens[self.pos].clone();
            proof {
                assert(self.toks()[self.cursor()] == self.tokens@[self.pos as int]@);
            }
            Ok(tok)
        }
    }

    /// Moves the cursor forward over one token; reports an end-of-file error
    /// when there is none to consume.
    pub fn advance(&mut self) -> (r: Result<(), Error>)
        requires
            old(self).wf(),
        ensures
            final(self).toks() == old(self).toks(),
            final(self).wf(),
            old(self).cursor() < old(self).toks().len() ==> (r matches Ok(_)
                && final(self).cursor() == old(self).cursor() + 1),
            old(self).cursor() >= old(self).toks().len() ==> (r matches Err(e) && e@ == eof_err()
                && final(self).cursor() == old(self).cursor()),
    {
        if self.pos < self.tokens.len() {
            self.pos = self.pos + 1;
            Ok(())
        } else {
            Err(err_eof())
        }
    }

    /// The precedence of the token at the cursor, `-1` when it is not a
    /// registered operator.
    pub fn tok_precedence(&self, tab: &PrecTable) -> (r: i32)
        requires
            self.wf(),
        ensures
            r as int == spec_tok_prec(self.toks(), self.cursor(), tab@),
    {
        match self.current() {
            Ok(Token::Op(op)) => tab.lookup(op),
            _ => -1,
        }
    }

    /// Parses any expression.
    pub fn parse_expr(&mut self, tab: &PrecTable) -> (r: Result<Expr, Error>)
        requires
            old(self).wf(),
        ensures
            final(self).toks() == old(self).toks(),
            final(self).wf(),
            expr_out_matches(
                spec_expr(old(self).toks(), old(self).cursor(), tab@),
                r,
                final(self).cursor(),
            ),
            r matches Ok(_) ==> final(self).cursor() > old(self).cursor(),
        decreases old(self).toks().len() - old(self).cursor(), 4int,
    {
        let ghost t = old(self).toks();
        let ghost p0 = old(self).cursor();
        let lhs = match self.parse_unary_expr(tab) {
            Ok(e) => e,
            Err(e) => {
                return Err(e);
            },
        };
        proof {
            assert(clamp_pos(t.len() as int, p0 + 1, self.cursor()) == self.cursor());
        }
        self.parse_bin_expr(tab, 0, lhs)
    }

    /// Parses a literal number.
    pub fn parse_num_expr(&mut self) -> (r: Result<Expr, Error>)
        requires
            old(self).wf(),
        ensures
            final(self).toks() == old(self).toks(),
            final(self).wf(),
            expr_out_matches(
                spec_num_expr(old(self).toks(), old(self).cursor()),
                r,
                final(self).cursor(),
            ),
            r matches Ok(_) ==> final(self).cursor() > old(self).cursor(),
    {
        match self.current() {
            Ok(Token::Number(value)) => {
                match self.advance() {
                    Ok(_) => (),
                    Err(e) => {
                        return Err(e);
                    },
                }
                Ok(Expr::Number(value))
            },
            Ok(_) => Err(err_syntax("expected number literal.")),
            Err(e) => Err(e),
        }
    }

    /// Parses an expression enclosed in parentheses.
    pub fn parse_paren_expr(&mut self, tab: &PrecTable) -> (r: Result<Expr, Error>)
        requires
            old(self).wf(),
        ensures
            final(self).toks() == old(self).toks(),
            final(self).wf(),
            expr_out_matches(
                spec_paren_expr(old(self).toks(), old(self).cursor(), tab@),
                r,
                final(self).cursor(),
            ),
            r matches Ok(_) ==> final(self).cursor() > old(self).cursor(),
        decreases old(self).toks().len() - old(self).cursor(), 1int,
    {
        match self.current() {
            Ok(Token::LParen) => (),
            Ok(_) => {
                return Err(err_syntax("Expected '(' character at start of parenthesized expression."));
            },
            Err(e) => {
                return Err(e);
            },
        }
        match self.advance() {
            Ok(_) => (),
            Err(e) => {
                return Err(e);
            },
        }
        let expr = match self.parse_expr(tab) {
            Ok(e) => e,
            Err(e) => {
                return Err(e);
            },
        };
        match self.current() {
            Ok(Token::RParen) => (),
            Ok(_) => {
                return Err(err_syntax("Expected ')' character at end of parenthesized expression."));
            },
            Err(e) => {
                return Err(e);
            },
        }
        match self.advance() {
            Ok(_) => (),
            Err(e) => {
                return Err(e);
            },
        }
        Ok(expr)
    }

    /// Parses an expression that starts with an identifier: a bare variable
    /// reference, or a call when an opening parenthesis follows.
    pub fn parse_ident_expr(&mut self, tab: &PrecTable) -> (r: Result<Expr, Error>)
        requires
            old(self).wf(),
        ensures
            final(self).toks() == old(self).toks(),
            final(self).wf(),
            expr_out_matches(
                spec_ident_expr(old(self).toks(), old(self).cursor(), tab@),
                r,
                final(self).cursor(),
            ),
            r matches Ok(_) ==> final(self).cursor() > old(self).cursor(),
        decreases old(self).toks().len() - old(self).cursor(), 1int,
    {
        let ghost t = old(self).toks();
        let ghost p0 = old(self).cursor();
        let ghost tb = tab@;
        let ident = match self.current() {
            Ok(Token::Ident(id)) => id,
            Ok(_) => {
                return Err(err_syntax("Expected identifier"));
            },
            Err(e) => {
                return Err(e);
            },
        };
        match self.advance() {
            Ok(_) => (),
            Err(e) => {
                return Err(e);
            },
        }
        if self.is_eof() {
            return Ok(Expr::Variable(ident));
        }
        match self.current() {
            Ok(Token::LParen) => (),
            Ok(_) => {
                return Ok(Expr::Variable(ident));
            },
            Err(e) => {
                return Err(e);
            },
        }
        match self.advance() {
            Ok(_) => (),
            Err(e) => {
                return Err(e);
            },
        }
        match self.current() {
            Ok(Token::RParen) => {
                match self.advance() {
                    Ok(_) => (),
                    Err(e) => {
                        return Err(e);
                    },
                }
                let args: Vec<Expr> = Vec::new();
                proof {
                    assert(exprs_view(args@) =~= Seq::<crate::ast::ExprV>::empty());
                }
                return Ok(Expr::Call { name: ident, args });
            },
            Ok(_) => (),
            Err(e) => {
                return Err(e);
            },
        }
        let mut args: Vec<Expr> = Vec::new();
        proof {
            assert(exprs_view(args@) =~= Seq::<crate::ast::ExprV>::empty());
        }
        loop
            invariant
                self.wf(),
                self.toks() == t,
                t == old(self).toks(),
                p0 == old(self).cursor(),
                tb == tab@,
                p0 + 2 <= self.cursor() <= t.len(),
                t[p0] == TokenV::Ident(ident@),
                spec_call_args(t, p0 + 2, tb, Seq::empty()) == spec_call_args(
                    t,
                    self.cursor(),
                    tb,
                    exprs_view(args@),
                ),
                spec_ident_expr(t, p0, tb) == (match spec_call_args(t, p0 + 2, tb, Seq::empty()) {
                    ArgsOut::Parsed { args: a, pos: p } => ExprOut::Parsed {
                        e: (crate::ast::ExprV::Call { name: ident@, args: a }),
                        pos: p,
                    },
                    ArgsOut::Failed { err, pos: p } => ExprOut::Failed { err, pos: p },
                }),
            decreases t.len() - self.cursor(),
        {
            let ghost pcur = self.cursor();
            let ghost acc0 = exprs_view(args@);
            let e = match self.parse_expr(tab) {
                Ok(e) => e,
                Err(er) => {
                    return Err(er);
                },
            };
            proof {
                assert(clamp_pos(t.len() as int, pcur + 1, self.cursor()) == self.cursor());
                lemma_exprs_view_push(args@, e);
            }
            args.push(e);
            match self.current() {
                Ok(Token::Comma) => {
                    match self.advance() {
                        Ok(_) => (),
                        Err(er) => {
                            return Err(er);
                        },
                    }
                },
                Ok(Token::RParen) => {
                    match self.advance() {
                        Ok(_) => (),
                        Err(er) => {
                            return Err(er);
                        },
                    }
                    return Ok(Expr::Call { name: ident, args });
                },
                Ok(_) => {
                    return Err(err_syntax("Expected ',' character in function call."));
                },
                Err(er) => {
                    return Err(er);
                },
            }
        }
    }

    /// Parses a primary expression: an identifier, a number, or a
    /// parenthesized expression.
    pub fn parse_primary(&mut self, tab: &PrecTable) -> (r: Result<Expr, Error>)
        requires
            old(self).wf(),
        ensures
            final(self).toks() == old(self).toks(),
            final(self).wf(),
            expr_out_matches(
                spec_primary(old(self).toks(), old(self).cursor(), tab@),
                r,
                final(self).cursor(),
            ),
            r matches Ok(_) ==> final(self).cursor() > old(self).cursor(),
        decreases old(self).toks().len() - old(self).cursor(), 2int,
    {
        match self.current() {
            Ok(Token::Ident(_)) => self.parse_ident_expr(tab),
            Ok(Token::Number(_)) => self.parse_num_expr(),
            Ok(Token::LParen) => self.parse_paren_expr(tab),
            Ok(_) => Err(err_syntax("unknown token when expecting an expression")),
            Err(e) => Err(e),
        }
    }

    /// Parses a unary expression: a leading operator character applies to
    /// the unary expression after it, as a call to its synthesized name.
    pub fn parse_unary_expr(&mut self, tab: &PrecTable) -> (r: Result<Expr, Error>)
        requires
            old(self).wf(),
        ensures
            final(self).toks() == old(self).toks(),
            final(self).wf(),
            expr_out_matches(
                spec_unary_expr(old(self).toks(), old(self).cursor(), tab@),
                r,
                final(self).cursor(),
            ),
            r matches Ok(_) ==> final(self).cursor() > old(self).cursor(),
        decreases old(self).toks().len() - old(self).cursor(), 3int,
    {
        match self.current() {
            Ok(Token::Op(op)) => {
                match self.advance() {
                    Ok(_) => (),
                    Err(e) => {
                        return Err(e);
                    },
                }
                let name = unary_name_exec(op);
                let arg = match self.parse_unary_expr(tab) {
                    Ok(e) => e,
                    Err(e) => {
                        return Err(e);
                    },
                };
                let ghost argv = arg@;
                let mut args: Vec<Expr> = Vec::new();
                args.push(arg);
                proof {
                    lemma_exprs_view(args@);
                    assert(args@.len() == 1);
                    assert(exprs_view(args@) =~= seq![argv]);
                }
                Ok(Expr::Call { name, args })
            },
            Ok(_) => self.parse_primary(tab),
            Err(e) => Err(e),
        }
    }

    /// Climbs binary operators over `lhs`, folding while the current
    /// operator binds at least as tightly as `prec`.
    pub fn parse_bin_expr(&mut self, tab: &PrecTable, prec: i32, lhs: Expr) -> (r: Result<
        Expr,
        Error,
    >)
        requires
            old(self).wf(),
        ensures
            final(self).toks() == old(self).toks(),
            final(self).wf(),
            expr_out_matches(
                spec_bin_expr(old(self).toks(), old(self).cursor(), tab@, prec as int, lhs@),
                r,
                final(self).cursor(),
            ),
            r matches Ok(_) ==> final(self).cursor() >= old(self).cursor(),
        decreases old(self).toks().len() - old(self).cursor(), 0int,
    {
        let ghost t = old(self).toks();
        let ghost p0 = old(self).cursor();
        let ghost tb = tab@;
        let ghost lhs0 = lhs@;
        let curr_prec = self.tok_precedence(tab);
        if curr_prec < prec || self.is_eof() {
            proof {
                assert(spec_bin_expr(t, p0, tb, prec as int, lhs0) == (ExprOut::Parsed {
                    e: lhs0,
                    pos: p0,
                }));
            }
            return Ok(lhs);
        }
        let op = match self.current() {
            Ok(Token::Op(op)) => op,
            Ok(_) => {
                return Err(err_syntax("Invalid operator."));
            },
            Err(e) => {
                return Err(e);
            },
        };
        match self.advance() {
            Ok(_) => (),
            Err(e) => {
                return Err(e);
            },
        }
        let rhs = match self.parse_unary_expr(tab) {
            Ok(e) => e,
            Err(e) => {
                proof {
                    assert(spec_bin_expr(t, p0, tb, prec as int, lhs0) == (ExprOut::Failed {
                        err: e@,
                        pos: self.cursor(),
                    }));
                }
                return Err(e);
            },
        };
        proof {
            assert(clamp_pos(t.len() as int, p0 + 1, self.cursor()) == self.cursor());
        }
        let next_prec = self.tok_precedence(tab);
        let rhs2 = if curr_prec < next_prec {
            match self.parse_bin_expr(tab, curr_prec + 1, rhs) {
                Ok(e) => e,
                Err(e) => {
                    return Err(e);
                },
            }
        } else {
            rhs
        };
        proof {
            assert(clamp_pos(t.len() as int, p0 + 1, self.cursor()) == self.cursor());
        }
        let folded = Expr::Binary { op, lhs: Box::new(lhs), rhs: Box::new(rhs2) };
        let ghost foldedv = folded@;
        let ghost pnext = self.cursor();
        proof {
            assert(spec_bin_expr(t, p0, tb, prec as int, lhs0) == spec_bin_expr(
                t,
                pnext,
                tb,
                prec as int,
                foldedv,
            ));
        }
        self.parse_bin_expr(tab, prec, folded)
    }

    /// Parses a prototype: an ordinary `name(params)` signature, or a
    /// custom-operator declaration, which synthesizes its name, reads the
    /// optional declared precedence, and registers the operator in the
    /// shared table as a side effect.
    pub fn parse_prototype(&mut self, tab: &mut PrecTable) -> (r: Result<Prototype, Error>)
        requires
            old(self).wf(),
        ensures
            final(self).toks() == old(self).toks(),
            final(self).wf(),
            proto_out_matches(
                spec_prototype(old(self).toks(), old(self).cursor(), old(tab)@),
                r,
                final(self).cursor(),
                final(tab)@,
            ),
    {
        let ghost t = old(self).toks();
        let ghost p0 = old(self).cursor();
        let ghost tb0 = old(tab)@;
        let (id, is_operator, precedence) = match self.current() {
            Ok(Token::Ident(id)) => {
                match self.advance() {
                    Ok(_) => (),
                    Err(e) => {
                        return Err(e);
                    },
                }
                (id, false, 0usize)
            },
            Ok(Token::Binary) => {
                match self.advance() {
                    Ok(_) => (),
                    Err(e) => {
                        return Err(e);
                    },
                }
                let op = match self.current() {
                    Ok(Token::Op(ch)) => ch,
                    Ok(_) => {
                        return Err(err_syntax("Expected operator in custom operator declaration."));
                    },
                    Err(e) => {
                        return Err(e);
                    },
                };
                match self.advance() {
                    Ok(_) => (),
                    Err(e) => {
                        return Err(e);
                    },
                }
                let name = binary_name_exec(op);
                let prec = match self.current() {
                    Ok(Token::Number(txt)) => {
                        match self.advance() {
                            Ok(_) => (),
                            Err(e) => {
                                return Err(e);
                            },
                        }
                        dec_val_exec(&txt)
                    },
                    Ok(_) => 0,
                    Err(e) => {
                        return Err(e);
                    },
                };
                tab.insert(op, prec as i32);
                (name, true, prec)
            },
            Ok(_) => {
                return Err(err_syntax("Expected identifier in prototype declaration."));
            },
            Err(e) => {
                return Err(e);
            },
        };
        let ghost tb = tab@;
        let ghost tailpos = self.cursor();
        match self.current() {
            Ok(Token::LParen) => (),
            Ok(_) => {
                return Err(err_syntax("Expected '(' character in prototype declaration."));
            },
            Err(e) => {
                return Err(e);
            },
        }
        match self.advance() {
            Ok(_) => (),
            Err(e) => {
                return Err(e);
            },
        }
        match self.current() {
            Ok(Token::RParen) => {
                match self.advance() {
                    Ok(_) => (),
                    Err(e) => {
                        return Err(e);
                    },
                }
                let args: Vec<String> = Vec::new();
                proof {
                    assert(names_view(args@) =~= Seq::<Seq<char>>::empty());
                }
                return Ok(Prototype { name: id, args, prec: precedence, is_op: is_operator });
            },
            Ok(_) => (),
            Err(e) => {
                return Err(e);
            },
        }
        let mut args: Vec<String> = Vec::new();
        proof {
            assert(names_view(args@) =~= Seq::<Seq<char>>::empty());
        }
        loop
            invariant
                self.wf(),
                self.toks() == t,
                t == old(self).toks(),
                p0 == old(self).cursor(),
                tb0 == old(tab)@,
                tb == tab@,
                tailpos + 1 <= self.cursor() <= t.len(),
                spec_proto_params(t, tailpos + 1, Seq::empty()) == spec_proto_params(
                    t,
                    self.cursor(),
                    names_view(args@),
                ),
                spec_prototype(t, p0, tb0) == (match spec_proto_params(t, tailpos + 1, Seq::empty()) {
                    ParamsOut::Parsed { args: a, pos: p } => ProtoOut::Parsed {
                        p: (crate::ast::PrototypeV {
                            name: id@,
                            args: a,
                            prec: precedence as int,
                            is_op: is_operator,
                        }),
                        pos: p,
                        tab: tb,
                    },
                    ParamsOut::Failed { err, pos: p } => ProtoOut::Failed { err, pos: p, tab: tb },
                }),
            decreases t.len() - self.cursor(),
        {
            let ghost pcur = self.cursor();
            let ghost acc0 = names_view(args@);
            let nm = match self.current() {
                Ok(Token::Ident(nm)) => nm,
                Ok(_) => {
                    proof {
                        assert(spec_proto_params(t, pcur, acc0) == (ParamsOut::Failed {
                            err: ErrorV::Syntax("Expected identifier in parameter declaration."@),
                            pos: pcur,
                        }));
                    }
                    return Err(err_syntax("Expected identifier in parameter declaration."));
                },
                Err(e) => {
                    proof {
                        assert(spec_proto_params(t, pcur, acc0) == (ParamsOut::Failed {
                            err: eof_err(),
                            pos: pcur,
                        }));
                    }
                    return Err(e);
                },
            };
            proof {
                assert(names_view(args@.push(nm)) =~= names_view(args@).push(nm@));
            }
            args.push(nm);
            match self.advance() {
                Ok(_) => (),
                Err(e) => {
                    return Err(e);
                },
            }
            match self.current() {
                Ok(Token::RParen) => {
                    let _ = self.advance();
                    proof {
                        assert(spec_proto_params(t, pcur, acc0) == (ParamsOut::Parsed {
                            args: acc0.push(nm@),
                            pos: pcur + 2,
                        }));
                        assert(names_view(args@) == acc0.push(nm@));
                    }
                    return Ok(Prototype { name: id, args, prec: precedence, is_op: is_operator });
                },
                Ok(Token::Comma) => {
                    let _ = self.advance();
                    proof {
                        assert(spec_proto_params(t, pcur, acc0) == spec_proto_params(
                            t,
                            pcur + 2,
                            acc0.push(nm@),
                        ));
                        assert(names_view(args@) == acc0.push(nm@));
                    }
                },
                Ok(_) => {
                    proof {
                        assert(spec_proto_params(t, pcur, acc0) == (ParamsOut::Failed {
                            err: ErrorV::Syntax(
                                "Expected ',' or ')' character in prototype declaration."@,
                            ),
                            pos: pcur + 1,
                        }));
                    }
                    return Err(err_syntax("Expected ',' or ')' character in prototype declaration."));
                },
                Err(e) => {
                    proof {
                        assert(spec_proto_params(t, pcur, acc0) == (ParamsOut::Failed {
                            err: eof_err(),
                            pos: pcur + 1,
                        }));
                    }
                    return Err(e);
                },
            }
        }
    }

    /// Parses `def prototype expression`: a full function definition.
    pub fn parse_definition(&mut self, tab: &mut PrecTable) -> (r: Result<Function, Error>)
        requires
            old(self).wf(),
        ensures
            final(self).toks() == old(self).toks(),
            final(self).wf(),
            fn_out_matches(
                spec_definition(old(self).toks(), old(self).cursor(), old(tab)@),
                r,
                final(self).cursor(),
                final(tab)@,
            ),
    {
        if self.pos < self.tokens.len() {
            self.pos = self.pos + 1;
        }
        let proto = match self.parse_prototype(tab) {
            Ok(p) => p,
            Err(e) => {
                return Err(e);
            },
        };
        let body = match self.parse_expr(tab) {
            Ok(e) => e,
            Err(e) => {
                return Err(e);
            },
        };
        Ok(Function { proto, body: Some(body), is_anon: false })
    }

    /// Parses `extern prototype`: a declaration without a body.
    pub fn parse_extern(&mut self, tab: &mut PrecTable) -> (r: Result<Function, Error>)
        requires
            old(self).wf(),
        ensures
            final(self).toks() == old(self).toks(),
            final(self).wf(),
            fn_out_matches(
                spec_extern(old(self).toks(), old(self).cursor(), old(tab)@),
                r,
                final(self).cursor(),
                final(tab)@,
            ),
    {
        if self.pos < self.tokens.len() {
            self.pos = self.pos + 1;
        }
        let proto = match self.parse_prototype(tab) {
            Ok(p) => p,
            Err(e) => {
                return Err(e);
            },
        };
        Ok(Function { proto, body: None, is_anon: false })
    }

    /// Parses a bare top-level expression and wraps it in an anonymous
    /// function record.
    pub fn parse_toplevel_expr(&mut self, tab: &PrecTable) -> (r: Result<Function, Error>)
        requires
            old(self).wf(),
        ensures
            final(self).toks() == old(self).toks(),
            final(self).wf(),
            fn_out_matches(
                spec_toplevel_expr(old(self).toks(), old(self).cursor(), tab@),
                r,
                final(self).cursor(),
                tab@,
            ),
    {
        let value = match self.parse_expr(tab) {
            Ok(e) => e,
            Err(e) => {
                return Err(e);
            },
        };
        let name = String::from_str("anon");
        let args: Vec<String> = Vec::new();
        proof {
            assert(names_view(args@) =~= Seq::<Seq<char>>::empty());
        }
        Ok(
            Function {
                proto: Prototype { name, args, prec: 0, is_op: false },
                body: Some(value),
                is_anon: true,
            },
        )
    }

    /// Parses one whole top-level construct, demanding that it consumed the
    /// entire buffer.
    pub fn parse(&mut self, tab: &mut PrecTable) -> (r: Result<Function, Error>)
        requires
            old(self).wf(),
        ensures
            final(self).toks() == old(self).toks(),
            final(self).wf(),
            fn_out_matches(
                spec_parse(old(self).toks(), old(self).cursor(), old(tab)@),
                r,
                final(self).cursor(),
                final(tab)@,
            ),
    {
        let cur = match self.current() {
            Ok(c) => c,
            Err(e) => {
                return Err(e);
            },
        };
        let result = match cur {
            Token::Def => self.parse_definition(tab),
            Token::Extern => self.parse_extern(tab),
            _ => self.parse_toplevel_expr(tab),
        };
        match result {
            Ok(res) => {
                if !self.is_eof() {
                    Err(eof_error("Unexpected token after parsed expression."))
                } else {
                    Ok(res)
                }
            },
            e => e,
        }
    }
}

} // verus!
