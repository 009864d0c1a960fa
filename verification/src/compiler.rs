//! The compiler: a single-pass Pratt parser that pulls tokens from the
//! scanner and emits bytecode straight into the function under
//! construction, resolving scopes and patching forward jumps as it goes.
//!
//! Every step keeps the chunk well-formed (`Chunk::wf`): the line map
//! covers the code byte for byte and every constant operand indexes the
//! pool, and every jump operand recorded for later patching stays a jump
//! operand (`chunk_extends`).
use crate::chunk::{
    chunk_extends, code_wf, lemma_patch, lemma_patchable_bounds, lemma_wf_append, lemma_wf_grow,
    patchable,
};
use crate::function::Function;
use crate::opcode::{is_const_op, is_jump_op, opcode_byte, OpCode};
use crate::scanner::Scanner;
use crate::text;
use crate::token::{Literal, Token, TT};
use crate::value::Value;
use crate::vm::InterpretResult;
use vstd::prelude::*;

verus! {

/// A local variable: the token that named it, and the scope depth it was
/// initialized at. `depth` is `None` from declaration until the end of
/// its initializer; reading such a local is an error.
#[derive(Debug)]
pub struct Local {
    pub name: Token,
    pub depth: Option<usize>,
}

/// The parser's token window and error state. `had_error` is sticky and
/// decides the compile result; `panic_mode` suppresses cascaded reports
/// until the next synchronization point.
#[derive(Debug)]
pub struct Parser {
    pub previous: Token,
    pub current: Token,
    pub had_error: bool,
    pub panic_mode: bool,
}

impl Default for Parser {
    fn default() -> (p: Self)
        ensures
            p.previous.ttype == TT::Undefined,
            p.current.ttype == TT::Undefined,
            !p.had_error,
            !p.panic_mode,
    {
        Parser {
            previous: Token::default(),
            current: Token::default(),
            had_error: false,
            panic_mode: false,
        }
    }
}

/// The binding strength of an infix position, lowest first.
#[derive(Debug, PartialEq, Eq, Structural, Clone, Copy)]
pub enum Precedence {
    NoPrecedence,
    Assignment,
    Or,
    And,
    Equality,
    Comparison,
    Term,
    Factor,
    Unary,
    Call,
    Primary,
}

/// The numeric level of each precedence.
pub open spec fn prec_value(p: Precedence) -> int {
    match p {
        Precedence::NoPrecedence => 0,
        Precedence::Assignment => 1,
        Precedence::Or => 2,
        Precedence::And => 3,
        Precedence::Equality => 4,
        Precedence::Comparison => 5,
        Precedence::Term => 6,
        Precedence::Factor => 7,
        Precedence::Unary => 8,
        Precedence::Call => 9,
        Precedence::Primary => 10,
    }
}

impl Precedence {
    fn level(self) -> (v: u8)
        ensures
            v == prec_value(self),
    {
        match self {
            Precedence::NoPrecedence => 0,
            Precedence::Assignment => 1,
            Precedence::Or => 2,
            Precedence::And => 3,
            Precedence::Equality => 4,
            Precedence::Comparison => 5,
            Precedence::Term => 6,
            Precedence::Factor => 7,
            Precedence::Unary => 8,
            Precedence::Call => 9,
            Precedence::Primary => 10,
        }
    }

    /// Whether this level binds no tighter than `other`.
    fn le(self, other: Precedence) -> (r: bool)
        ensures
            r == (prec_value(self) <= prec_value(other)),
    {
        self.level() <= other.level()
    }

    /// The next-higher precedence level.
    pub fn next(self) -> (r: Precedence)
        requires
            self != Precedence::Primary,
        ensures
            prec_value(r) == prec_value(self) + 1,
    {
        match self {
            Precedence::NoPrecedence => Precedence::Assignment,
            Precedence::Assignment => Precedence::Or,
            Precedence::Or => Precedence::And,
            Precedence::And => Precedence::Equality,
            Precedence::Equality => Precedence::Comparison,
            Precedence::Comparison => Precedence::Term,
            Precedence::Term => Precedence::Factor,
            Precedence::Factor => Precedence::Unary,
            Precedence::Unary => Precedence::Call,
            Precedence::Call => Precedence::Primary,
            Precedence::Primary => Precedence::Primary,
        }
    }
}

/// The parse action a token kind triggers in prefix or infix position.
#[derive(Debug, PartialEq, Eq, Structural, Clone, Copy)]
pub enum ParseFn {
    Nothing,
    Grouping,
    Unary,
    Binary,
    Variable,
    NumberLit,
    StringLit,
    ConstantLit,
    AndOp,
    OrOp,
}

/// One row of the parse table: what a token does as a prefix, what it
/// does as an infix, and how strongly it binds there.
#[derive(Debug, Clone, Copy)]
pub struct ParseRule {
    pub precedence: Precedence,
    pub prefix: ParseFn,
    pub infix: ParseFn,
}

/// The parse table as the language defines it, row by row.
pub open spec fn rule_spec(ttype: TT) -> ParseRule {
    match ttype {
        TT::LeftParen => ParseRule {
            precedence: Precedence::NoPrecedence,
            prefix: ParseFn::Grouping,
            infix: ParseFn::Nothing,
        },
        TT::Minus => ParseRule {
            precedence: Precedence::Term,
            prefix: ParseFn::Unary,
            infix: ParseFn::Binary,
        },
        TT::Plus => ParseRule {
            precedence: Precedence::Term,
            prefix: ParseFn::Nothing,
            infix: ParseFn::Binary,
        },
        TT::Slash => ParseRule {
            precedence: Precedence::Factor,
            prefix: ParseFn::Nothing,
            infix: ParseFn::Binary,
        },
        TT::Star => ParseRule {
            precedence: Precedence::Factor,
            prefix: ParseFn::Nothing,
            infix: ParseFn::Binary,
        },
        TT::Identifier => ParseRule {
            precedence: Precedence::NoPrecedence,
            prefix: ParseFn::Variable,
            infix: ParseFn::Nothing,
        },
        TT::Number => ParseRule {
            precedence: Precedence::NoPrecedence,
            prefix: ParseFn::NumberLit,
            infix: ParseFn::Nothing,
        },
        TT::Constant => ParseRule {
            precedence: Precedence::NoPrecedence,
            prefix: ParseFn::ConstantLit,
            infix: ParseFn::Nothing,
        },
        TT::Str => ParseRule {
            precedence: Precedence::NoPrecedence,
            prefix: ParseFn::StringLit,
            infix: ParseFn::Nothing,
        },
        TT::Bang => ParseRule {
            precedence: Precedence::NoPrecedence,
            prefix: ParseFn::Unary,
            infix: ParseFn::Nothing,
        },
        TT::BangEquals => ParseRule {
            precedence: Precedence::Equality,
            prefix: ParseFn::Nothing,
            infix: ParseFn::Binary,
        },
        TT::Equals => ParseRule {
            precedence: Precedence::Equality,
            prefix: ParseFn::Nothing,
            infix: ParseFn::Binary,
        },
        TT::Greater => ParseRule {
            precedence: Precedence::Comparison,
            prefix: ParseFn::Nothing,
            infix: ParseFn::Binary,
        },
        TT::GreaterEquals => ParseRule {
            precedence: Precedence::Comparison,
            prefix: ParseFn::Nothing,
            infix: ParseFn::Binary,
        },
        TT::Less => ParseRule {
            precedence: Precedence::Comparison,
            prefix: ParseFn::Nothing,
            infix: ParseFn::Binary,
        },
        TT::LessEquals => ParseRule {
            precedence: Precedence::Comparison,
            prefix: ParseFn::Nothing,
            infix: ParseFn::Binary,
        },
        TT::And => ParseRule {
            precedence: Precedence::And,
            prefix: ParseFn::Nothing,
            infix: ParseFn::AndOp,
        },
        TT::Or => ParseRule {
            precedence: Precedence::Or,
            prefix: ParseFn::Nothing,
            infix: ParseFn::OrOp,
        },
        _ => ParseRule {
            precedence: Precedence::NoPrecedence,
            prefix: ParseFn::Nothing,
            infix: ParseFn::Nothing,
        },
    }
}

/// The parse table, one row per token kind: exactly the rows of
/// `rule_spec`.
pub fn get_rule(ttype: TT) -> (r: ParseRule)
    ensures
        r == rule_spec(ttype),
        ttype == TT::EndOfFile ==> r.precedence == Precedence::NoPrecedence && r.prefix
            == ParseFn::Nothing,
        r.infix == ParseFn::Binary ==> r.precedence != Precedence::Primary,
{
    match ttype {
        TT::LeftParen => ParseRule {
            precedence: Precedence::NoPrecedence,
            prefix: ParseFn::Grouping,
            infix: ParseFn::Nothing,
        },
        TT::Minus => ParseRule {
            precedence: Precedence::Term,
            prefix: ParseFn::Unary,
            infix: ParseFn::Binary,
        },
        TT::Plus => ParseRule {
            precedence: Precedence::Term,
            prefix: ParseFn::Nothing,
            infix: ParseFn::Binary,
        },
        TT::Slash => ParseRule {
            precedence: Precedence::Factor,
            prefix: ParseFn::Nothing,
            infix: ParseFn::Binary,
        },
        TT::Star => ParseRule {
            precedence: Precedence::Factor,
            prefix: ParseFn::Nothing,
            infix: ParseFn::Binary,
        },
        TT::Identifier => ParseRule {
            precedence: Precedence::NoPrecedence,
            prefix: ParseFn::Variable,
            infix: ParseFn::Nothing,
        },
        TT::Number => ParseRule {
            precedence: Precedence::NoPrecedence,
            prefix: ParseFn::NumberLit,
            infix: ParseFn::Nothing,
        },
        TT::Constant => ParseRule {
            precedence: Precedence::NoPrecedence,
            prefix: ParseFn::ConstantLit,
            infix: ParseFn::Nothing,
        },
        TT::Str => ParseRule {
            precedence: Precedence::NoPrecedence,
            prefix: ParseFn::StringLit,
            infix: ParseFn::Nothing,
        },
        TT::Bang => ParseRule {
            precedence: Precedence::NoPrecedence,
            prefix: ParseFn::Unary,
            infix: ParseFn::Nothing,
        },
        TT::BangEquals => ParseRule {
            precedence: Precedence::Equality,
            prefix: ParseFn::Nothing,
            infix: ParseFn::Binary,
        },
        TT::Equals => ParseRule {
            precedence: Precedence::Equality,
            prefix: ParseFn::Nothing,
            infix: ParseFn::Binary,
        },
        TT::Greater => ParseRule {
            precedence: Precedence::Comparison,
            prefix: ParseFn::Nothing,
            infix: ParseFn::Binary,
        },
        TT::GreaterEquals => ParseRule {
            precedence: Precedence::Comparison,
            prefix: ParseFn::Nothing,
            infix: ParseFn::Binary,
        },
        TT::Less => ParseRule {
            precedence: Precedence::Comparison,
            prefix: ParseFn::Nothing,
            infix: ParseFn::Binary,
        },
        TT::LessEquals => ParseRule {
            precedence: Precedence::Comparison,
            prefix: ParseFn::Nothing,
            infix: ParseFn::Binary,
        },
        TT::And => ParseRule {
            precedence: Precedence::And,
            prefix: ParseFn::Nothing,
            infix: ParseFn::AndOp,
        },
        TT::Or => ParseRule {
            precedence: Precedence::Or,
            prefix: ParseFn::Nothing,
            infix: ParseFn::OrOp,
        },
        _ => ParseRule {
            precedence: Precedence::NoPrecedence,
            prefix: ParseFn::Nothing,
            infix: ParseFn::Nothing,
        },
    }
}

/// The one-line report of an error at a token: the line number, where it
/// was (at the end, at the offending lexeme, or nowhere for a scanner
/// error token), and the message.
pub open spec fn diagnostic_text(token: Token, message: Seq<char>) -> Seq<char> {
    "[line "@ + crate::text::dec_rep(token.line as nat) + "] Error"@ + (if token.ttype
        == TT::EndOfFile {
        " at end"@
    } else if token.ttype == TT::Error {
        Seq::<char>::empty()
    } else {
        " at "@ + token.lexeme@
    }) + " : "@ + message
}

/// A statement boundary during error recovery: a semicolon was just
/// passed, or a token that starts a statement (or the end of the file)
/// is ahead.
pub open spec fn boundary_token(previous: TT, current: TT) -> bool {
    ||| previous == TT::Semicolon
    ||| current == TT::Class
    ||| current == TT::Fun
    ||| current == TT::Var
    ||| current == TT::For
    ||| current == TT::If
    ||| current == TT::While
    ||| current == TT::Print
    ||| current == TT::Return
    ||| current == TT::EndOfFile
}

/// The depth at which a local sorts: an uninitialized one counts at the
/// current depth, where it was just declared.
pub open spec fn local_rank(l: Local, sd: int) -> int {
    match l.depth {
        Some(d) => d as int,
        None => sd,
    }
}

/// Locals are stacked: depths bounded by the current scope depth and
/// non-decreasing from the bottom up.
pub open spec fn locals_ok(locals: Seq<Local>, sd: int) -> bool {
    &&& (forall|i: int|
        0 <= i < locals.len() ==> ((#[trigger] locals[i]).depth matches Some(d) ==> 1 <= d <= sd))
    &&& (forall|i: int, j: int|
        0 <= i < j < locals.len() ==> local_rank(#[trigger] locals[i], sd) <= local_rank(
            #[trigger] locals[j],
            sd,
        ))
}

/// Every local has finished initializing.
pub open spec fn locals_initialized(locals: Seq<Local>) -> bool {
    forall|i: int| 0 <= i < locals.len() ==> (#[trigger] locals[i]).depth is Some
}

/// The single-pass compiler: the function being filled with bytecode, the
/// token window, the scanner, the local slots, and the diagnostics the
/// error protocol has produced.
pub struct Compiler {
    pub function: Function,
    pub parser: Parser,
    pub scanner: Scanner,
    pub locals: Vec<Local>,
    pub scope_depth: usize,
    pub diagnostics: Vec<String>,
}

impl Compiler {
    /// The structural invariant every compiler step preserves.
    pub open spec fn wf(self) -> bool {
        &&& self.scanner.wf()
        &&& self.function.chunk.wf()
        &&& self.locals@.len() <= 256
        &&& locals_ok(self.locals@, self.scope_depth as int)
        &&& (self.parser.panic_mode ==> self.parser.had_error)
        &&& (self.parser.had_error <==> self.diagnostics@.len() > 0)
    }

    /// How much input is left: unscanned characters, plus one for a
    /// lookahead token that is not yet end-of-file. Every token consumed
    /// makes this strictly smaller.
    pub open spec fn remaining(self) -> int {
        self.scanner.source@.len() - self.scanner.current + (if self.parser.current.ttype
            != TT::EndOfFile {
            1int
        } else {
            0int
        })
    }

    /// What one compiler step may do: keep the invariant, extend the
    /// chunk, consume input, and never clear the sticky error flag.
    pub open spec fn stable(post: Compiler, pre: Compiler) -> bool {
        &&& post.wf()
        &&& chunk_extends(post.function.chunk, pre.function.chunk)
        &&& post.remaining() <= pre.remaining()
        &&& post.scanner.source@ == pre.scanner.source@
        &&& post.function.name@ == pre.function.name@
        &&& post.function.arity == pre.function.arity
        &&& (pre.parser.had_error ==> post.parser.had_error)
    }

    /// A step of expression parsing: locals and scopes are untouched.
    pub open spec fn stable_expr(post: Compiler, pre: Compiler) -> bool {
        &&& Self::stable(post, pre)
        &&& post.locals@ == pre.locals@
        &&& post.scope_depth == pre.scope_depth
    }

    pub fn new() -> (c: Compiler)
        ensures
            c.wf(),
            !c.parser.had_error,
            !c.parser.panic_mode,
            c.locals@.len() == 0,
            c.scope_depth == 0,
            c.function.chunk.code@.len() == 0,
            c.function.chunk.constants.values@.len() == 0,
            c.function.name@ == "<script>"@,
            c.function.arity == 0,
            c.diagnostics@.len() == 0,
    {
        Compiler {
            function: Function::new("<script>"),
            parser: Parser::default(),
            scanner: Scanner::new(""),
            locals: Vec::new(),
            scope_depth: 0,
            diagnostics: Vec::new(),
        }
    }

    /// Whether any error has been reported during this compilation.
    pub fn had_error(&self) -> (r: bool)
        ensures
            r == self.parser.had_error,
    {
        self.parser.had_error
    }

    /// Reports an error at a token: one diagnostic line, both flags set.
    /// While panic mode is on the report is suppressed.
    fn error_at_token(&mut self, at_current: bool, message: &str)
        ensures
            final(self).function == old(self).function,
            final(self).scanner == old(self).scanner,
            final(self).locals@ == old(self).locals@,
            final(self).scope_depth == old(self).scope_depth,
            final(self).parser.previous == old(self).parser.previous,
            final(self).parser.current == old(self).parser.current,
            old(self).parser.panic_mode ==> *final(self) == *old(self),
            !old(self).parser.panic_mode ==> {
                &&& final(self).parser.had_error
                &&& final(self).parser.panic_mode
                &&& final(self).diagnostics@.len() == old(self).diagnostics@.len() + 1
                &&& final(self).diagnostics@.last()@ == diagnostic_text(
                    if at_current {
                        old(self).parser.current
                    } else {
                        old(self).parser.previous
                    },
                    message@,
                )
            },
            old(self).parser.had_error ==> final(self).parser.had_error,
    {
        if self.parser.panic_mode {
            return ;
        }
        self.parser.panic_mode = true;
        let token = if at_current {
            &self.parser.current
        } else {
            &self.parser.previous
        };
        let mut line = String::from_str("[line ");
        let line_text = text::usize_to_string(token.line);
        line.append(line_text.as_str());
        line.append("] Error");
        match token.ttype {
            TT::EndOfFile => {
                line.append(" at end");
            },
            TT::Error => {},
            _ => {
                line.append(" at ");
                line.append(token.lexeme.as_str());
            },
        }
        line.append(" : ");
        line.append(message);
        self.diagnostics.push(line);
        self.parser.had_error = true;
    }

    /// Reports an error at the token being looked at.
    fn error_at_current(&mut self, message: &str)
        ensures
            final(self).function == old(self).function,
            final(self).scanner == old(self).scanner,
            final(self).locals@ == old(self).locals@,
            final(self).scope_depth == old(self).scope_depth,
            final(self).parser.previous == old(self).parser.previous,
            final(self).parser.current == old(self).parser.current,
            old(self).parser.panic_mode ==> *final(self) == *old(self),
            !old(self).parser.panic_mode ==> final(self).parser.had_error && final(self).diagnostics@.len() == old(self).diagnostics@.len() + 1 && final(self).diagnostics@.last()@ == diagnostic_text(old(self).parser.current, message@),
            old(self).parser.had_error ==> final(self).parser.had_error,
    {
        self.error_at_token(true, message)
    }

    /// Reports an error at the token just consumed.
    fn error(&mut self, message: &str)
        ensures
            final(self).function == old(self).function,
            final(self).scanner == old(self).scanner,
            final(self).locals@ == old(self).locals@,
            final(self).scope_depth == old(self).scope_depth,
            final(self).parser.previous == old(self).parser.previous,
            final(self).parser.current == old(self).parser.current,
            old(self).parser.panic_mode ==> *final(self) == *old(self),
            !old(self).parser.panic_mode ==> final(self).parser.had_error && final(self).diagnostics@.len() == old(self).diagnostics@.len() + 1 && final(self).diagnostics@.last()@ == diagnostic_text(old(self).parser.previous, message@),
            old(self).parser.had_error ==> final(self).parser.had_error,
    {
        self.error_at_token(false, message)
    }

    /// Shifts the token window: `previous` takes the lookahead, and the
    /// scanner yields the next token, reporting and skipping error tokens.
    fn advance(&mut self)
        requires
            old(self).wf(),
        ensures
            Self::stable_expr(*final(self), *old(self)),
            final(self).function == old(self).function,
            final(self).parser.previous == old(self).parser.current,
            final(self).parser.current.ttype != TT::Error,
            old(self).parser.current.ttype != TT::EndOfFile ==> final(self).remaining() < old(self).remaining(),
    {
        self.parser.previous = self.parser.current.clone();
        let ghost rem0 = self.scanner.source@.len() - self.scanner.current;
        loop
            invariant
                self.wf(),
                self.scanner.source@ == old(self).scanner.source@,
                self.function == old(self).function,
                self.locals@ == old(self).locals@,
                self.scope_depth == old(self).scope_depth,
                self.parser.previous == old(self).parser.current,
                old(self).parser.had_error ==> self.parser.had_error,
                old(self).scanner.current <= self.scanner.current,
                self.scanner.source@.len() - self.scanner.current <= rem0,
            ensures
                self.wf(),
                self.scanner.source@ == old(self).scanner.source@,
                self.function == old(self).function,
                self.locals@ == old(self).locals@,
                self.scope_depth == old(self).scope_depth,
                self.parser.previous == old(self).parser.current,
                old(self).parser.had_error ==> self.parser.had_error,
                self.parser.current.ttype != TT::Error,
                self.scanner.source@.len() - self.scanner.current + (if self.parser.current.ttype
                    != TT::EndOfFile {
                    1int
                } else {
                    0int
                }) <= rem0,
            decreases self.scanner.source@.len() - self.scanner.current,
        {
            let t = self.scanner.scan_token();
            let is_error = matches!(t.ttype, TT::Error);
            self.parser.current = t;
            if !is_error {
                break ;
            }
            let message = self.parser.current.lexeme.clone();
            self.error_at_current(message.as_str());
        }
    }

    /// Whether the lookahead has the given kind.
    fn check(&self, ttype: TT) -> (r: bool)
        ensures
            r == (self.parser.current.ttype == ttype),
    {
        self.parser.current.ttype == ttype
    }

    /// Consumes the lookahead when it has the given kind.
    fn is_match(&mut self, ttype: TT) -> (r: bool)
        requires
            old(self).wf(),
        ensures
            Self::stable_expr(*final(self), *old(self)),
            final(self).function == old(self).function,
            r == (old(self).parser.current.ttype == ttype),
            r && ttype != TT::EndOfFile ==> final(self).remaining() < old(self).remaining(),
            !r ==> *final(self) == *old(self),
    {
        if self.check(ttype) {
            self.advance();
            true
        } else {
            false
        }
    }

    /// Demands a token of the given kind: consumes it, or reports the
    /// message at the lookahead.
    fn consume(&mut self, ttype: TT, message: &str)
        requires
            old(self).wf(),
        ensures
            Self::stable_expr(*final(self), *old(self)),
            final(self).function == old(self).function,
            old(self).parser.current.ttype == ttype && ttype != TT::EndOfFile ==> final(self).remaining() < old(self).remaining(),
            // the demanded token was just passed, or an error is on record
            old(self).parser.current.ttype == ttype ==> final(self).parser.previous.ttype == ttype,
            old(self).parser.current.ttype != ttype ==> final(self).parser.had_error,
    {
        if self.parser.current.ttype == ttype {
            self.advance();
            return ;
        }
        self.error_at_current(message)
    }

    /// Skips tokens until a statement boundary, and leaves panic mode.
    fn synchronize(&mut self)
        requires
            old(self).wf(),
        ensures
            Self::stable(*final(self), *old(self)),
            final(self).locals@ == old(self).locals@,
            final(self).scope_depth == old(self).scope_depth,
            final(self).function == old(self).function,
            !final(self).parser.panic_mode,
            // Skipping stops at a statement boundary: just past a semicolon,
            // or just before a keyword that starts one, or at the end.
            boundary_token(final(self).parser.previous.ttype, final(self).parser.current.ttype),
    {
        self.parser.panic_mode = false;
        loop
            invariant
                self.wf(),
                self.scanner.source@ == old(self).scanner.source@,
                self.function == old(self).function,
                self.locals@ == old(self).locals@,
                self.scope_depth == old(self).scope_depth,
                old(self).parser.had_error ==> self.parser.had_error,
                self.remaining() <= old(self).remaining(),
            ensures
                self.wf(),
                self.scanner.source@ == old(self).scanner.source@,
                self.function == old(self).function,
                self.locals@ == old(self).locals@,
                self.scope_depth == old(self).scope_depth,
                old(self).parser.had_error ==> self.parser.had_error,
                self.remaining() <= old(self).remaining(),
                boundary_token(self.parser.previous.ttype, self.parser.current.ttype),
            decreases self.remaining(),
        {
            if matches!(self.parser.current.ttype, TT::EndOfFile) {
                break ;
            }
            if matches!(self.parser.previous.ttype, TT::Semicolon) {
                break ;
            }
            if matches!(
                self.parser.current.ttype,
                TT::Class | TT::Fun | TT::Var | TT::For | TT::If | TT::While | TT::Print
                    | TT::Return,
            ) {
                break ;
            }
            self.advance();
        }
        self.parser.panic_mode = false;
    }

    /// Emits a one-byte instruction.
    fn emit_simple(&mut self, op: OpCode)
        requires
            old(self).wf(),
            !is_const_op(opcode_byte(op)),
            !crate::opcode::is_slot_op(opcode_byte(op)),
            !is_jump_op(opcode_byte(op)),
        ensures
            Self::stable_expr(*final(self), *old(self)),
            final(self).parser == old(self).parser,
            final(self).scanner == old(self).scanner,
            final(self).function.chunk.code@ == old(self).function.chunk.code@.push(
                opcode_byte(op),
            ),
            final(self).function.chunk.constants == old(self).function.chunk.constants,
            !patchable(final(self).function.chunk.code@, old(self).function.chunk.code@.len() as int),
    {
        let line = self.parser.previous.line;
        let b = op.as_byte();
        self.function.emit_byte(b, line);
        proof {
            let instr = seq![opcode_byte(op)];
            lemma_wf_append(
                old(self).function.chunk.code@,
                old(self).function.chunk.constants.values@.len() as int,
                0,
                instr,
            );
            assert(self.function.chunk.code@ =~= old(self).function.chunk.code@ + instr);
        }
    }

    /// Emits a two-byte instruction: an opcode and its operand.
    fn emit_bytes(&mut self, byte1: OpCode, byte2: u8)
        requires
            old(self).wf(),
            !is_jump_op(opcode_byte(byte1)),
            is_const_op(opcode_byte(byte1)) || crate::opcode::is_slot_op(opcode_byte(byte1)),
            is_const_op(opcode_byte(byte1)) ==> (byte2 as int)
                < old(self).function.chunk.constants.values@.len(),
        ensures
            Self::stable_expr(*final(self), *old(self)),
            final(self).parser == old(self).parser,
            final(self).scanner == old(self).scanner,
            final(self).function.chunk.code@ == old(self).function.chunk.code@ + seq![
                opcode_byte(byte1),
                byte2,
            ],
            final(self).function.chunk.constants == old(self).function.chunk.constants,
    {
        let line = self.parser.previous.line;
        let b = byte1.as_byte();
        self.function.emit_byte(b, line);
        self.function.emit_byte(byte2, line);
        proof {
            let instr = seq![opcode_byte(byte1), byte2];
            lemma_wf_append(
                old(self).function.chunk.code@,
                old(self).function.chunk.constants.values@.len() as int,
                0,
                instr,
            );
            assert(self.function.chunk.code@ =~= old(self).function.chunk.code@ + instr);
        }
    }

    /// Adds a constant to the pool and emits the instruction that loads
    /// it; past 256 pool entries this is a compile error.
    fn emit_constant(&mut self, val: Value)
        requires
            old(self).wf(),
        ensures
            Self::stable_expr(*final(self), *old(self)),
            final(self).scanner == old(self).scanner,
            final(self).parser.current == old(self).parser.current,
            final(self).parser.previous == old(self).parser.previous,
            final(self).function.chunk.constants.values@ == old(self).function.chunk.constants.values@.push(val),
            old(self).function.chunk.constants.values@.len() < 256 ==> final(self).function.chunk.code@ == old(self).function.chunk.code@ + seq![
                opcode_byte(OpCode::Constant),
                old(self).function.chunk.constants.values@.len() as u8,
            ],
            old(self).function.chunk.constants.values@.len() >= 256 ==> final(self).parser.had_error,
    {
        let line = self.parser.previous.line;
        let ghost pre_code = self.function.chunk.code@;
        let ghost pre_n = self.function.chunk.constants.values@.len() as int;
        let r = self.function.emit_constant(val, line);
        proof {
            lemma_wf_grow(pre_code, pre_n, pre_n + 1, 0);
            if r is Some {
                let i = r->0;
                let instr = seq![opcode_byte(OpCode::Constant), i];
                lemma_wf_append(pre_code, pre_n + 1, 0, instr);
                assert(self.function.chunk.code@ =~= pre_code + instr);
            }
        }
        if r.is_none() {
            self.error("Too many constants in one chunk");
        }
    }

    /// Adds an identifier's name to the pool as a string constant and
    /// returns its operand byte; past 256 entries this is a compile error
    /// and slot 0 stands in.
    fn identifier_constant(&mut self, name: &str) -> (r: u8)
        requires
            old(self).wf(),
        ensures
            Self::stable_expr(*final(self), *old(self)),
            final(self).scanner == old(self).scanner,
            final(self).parser.current == old(self).parser.current,
            final(self).parser.previous == old(self).parser.previous,
            final(self).function.chunk.code@ == old(self).function.chunk.code@,
            (r as int) < final(self).function.chunk.constants.values@.len(),
    {
        let ghost pre_code = self.function.chunk.code@;
        let ghost pre_n = self.function.chunk.constants.values@.len() as int;
        let r = self.function.make_constant(Value::Str(String::from_str(name)));
        proof {
            lemma_wf_grow(pre_code, pre_n, pre_n + 1, 0);
        }
        match r {
            Some(index) => index,
            None => {
                self.error("Too many constants in one chunk");
                0
            },
        }
    }

    /// Reserves a forward jump: the opcode and two placeholder bytes. The
    /// offset of the placeholder comes back for later patching.
    fn emit_jump(&mut self, opcode: OpCode) -> (offset: usize)
        requires
            old(self).wf(),
            is_jump_op(opcode_byte(opcode)),
        ensures
            Self::stable_expr(*final(self), *old(self)),
            final(self).parser == old(self).parser,
            final(self).scanner == old(self).scanner,
            final(self).function.chunk.code@ == old(self).function.chunk.code@ + seq![
                opcode_byte(opcode),
                255u8,
                255u8,
            ],
            final(self).function.chunk.constants == old(self).function.chunk.constants,
            offset == old(self).function.chunk.code@.len() + 1,
            patchable(final(self).function.chunk.code@, offset as int),
            patchable(final(self).function.chunk.code@, offset as int + 1),
            !patchable(final(self).function.chunk.code@, old(self).function.chunk.code@.len() as int),
            offset + 2 == final(self).function.chunk.code@.len(),
    {
        let line = self.parser.previous.line;
        let b = opcode.as_byte();
        self.function.emit_byte(b, line);
        self.function.emit_byte(0xff, line);
        self.function.emit_byte(0xff, line);
        proof {
            let instr = seq![opcode_byte(opcode), 255u8, 255u8];
            lemma_wf_append(
                old(self).function.chunk.code@,
                old(self).function.chunk.constants.values@.len() as int,
                0,
                instr,
            );
            assert(self.function.chunk.code@ =~= old(self).function.chunk.code@ + instr);
        }
        self.function.size() - 2
    }

    /// Patches a reserved forward jump to land at the current end of the
    /// code. A distance past 16 bits is a compile error ("Too much code
    /// to jump over."); the operand is then the truncated distance.
    fn finish_jump(&mut self, offset: usize)
        requires
            old(self).wf(),
            patchable(old(self).function.chunk.code@, offset as int),
            patchable(old(self).function.chunk.code@, offset as int + 1),
        ensures
            Self::stable_expr(*final(self), *old(self)),
            final(self).scanner == old(self).scanner,
            final(self).parser.current == old(self).parser.current,
            final(self).parser.previous == old(self).parser.previous,
            final(self).function.chunk.code@.len() == old(self).function.chunk.code@.len(),
            final(self).function.chunk.constants == old(self).function.chunk.constants,
            // The patched operand aims at the end of the code as it stands,
            // whenever the distance fits.
            old(self).function.chunk.code@.len() - offset - 2 <= 65535 ==> {
                &&& final(self).function.chunk.code@[offset as int] * 256 + final(self).function.chunk.code@[offset as int + 1] == old(self).function.chunk.code@.len()
                    - offset - 2
                &&& final(self).parser.had_error == old(self).parser.had_error
            },
            old(self).function.chunk.code@.len() - offset - 2 > 65535 ==> final(self).parser.had_error,
    {
        proof {
            lemma_patchable_bounds(old(self).function.chunk.code@, 0, offset as int + 1);
        }
        let size = self.function.size();
        let jump = size - offset - 2;
        if jump > 65535 {
            self.error("Too much code to jump over.");
        }
        let hi = ((jump / 256) % 256) as u8;
        let lo = (jump % 256) as u8;
        let ghost c0 = self.function.chunk.code@;
        let ghost nconsts = self.function.chunk.constants.values@.len() as int;
        proof {
            lemma_patch(c0, nconsts, 0, offset as int, hi);
        }
        self.function.write_at(offset, hi);
        let ghost c1 = self.function.chunk.code@;
        proof {
            lemma_patch(c1, nconsts, 0, offset as int + 1, lo);
        }
        self.function.write_at(offset + 1, lo);
        proof {
            if jump <= 65535 {
                assert(hi * 256 + lo == jump) by (nonlinear_arith)
                    requires
                        jump <= 65535,
                        hi == (jump / 256) % 256,
                        lo == jump % 256,
                ;
            }
        }
    }

    /// Emits a backward jump to `loop_start`. A distance past 16 bits is
    /// a compile error ("Loop body too large").
    fn emit_loop(&mut self, loop_start: usize)
        requires
            old(self).wf(),
            loop_start <= old(self).function.chunk.code@.len(),
        ensures
            Self::stable_expr(*final(self), *old(self)),
            final(self).scanner == old(self).scanner,
            final(self).parser.current == old(self).parser.current,
            final(self).parser.previous == old(self).parser.previous,
            final(self).function.chunk.code@.len() == old(self).function.chunk.code@.len() + 3,
            final(self).function.chunk.code@[old(self).function.chunk.code@.len() as int]
                == opcode_byte(OpCode::Loop),
            final(self).function.chunk.constants == old(self).function.chunk.constants,
            // A distance past 16 bits is reported; otherwise the loop
            // instruction rewinds exactly to `loop_start`.
            old(self).function.chunk.code@.len() + 3 - loop_start > 65535 ==> final(self).parser.had_error,
            old(self).function.chunk.code@.len() + 3 - loop_start <= 65535 ==> {
                &&& final(self).function.chunk.code@[old(self).function.chunk.code@.len() as int
                    + 1] * 256 + final(self).function.chunk.code@[old(self).function.chunk.code@.len() as int + 2] == old(self).function.chunk.code@.len()
                    + 3 - loop_start
                &&& final(self).parser.had_error == old(self).parser.had_error
            },
    {
        let line = self.parser.previous.line;
        let size = self.function.size();
        let back = size - loop_start;
        let offset = if back <= 65532 {
            back + 3
        } else {
            self.error("Loop body too large");
            ((back % 65536) + 3) % 65536
        };
        let hi = ((offset / 256) % 256) as u8;
        let lo = (offset % 256) as u8;
        let b = OpCode::Loop.as_byte();
        self.function.emit_byte(b, line);
        self.function.emit_byte(hi, line);
        self.function.emit_byte(lo, line);
        proof {
            let instr = seq![opcode_byte(OpCode::Loop), hi, lo];
            lemma_wf_append(
                old(self).function.chunk.code@,
                old(self).function.chunk.constants.values@.len() as int,
                0,
                instr,
            );
            assert(self.function.chunk.code@ =~= old(self).function.chunk.code@ + instr);
            if back <= 65532 {
                assert(hi * 256 + lo == offset) by (nonlinear_arith)
                    requires
                        offset <= 65535,
                        hi == (offset / 256) % 256,
                        lo == (offset % 256),
                ;
            }
        }
    }

    /// Emits the return that ends every compiled chunk.
    fn emit_return(&mut self)
        requires
            old(self).wf(),
        ensures
            Self::stable_expr(*final(self), *old(self)),
            final(self).parser == old(self).parser,
            final(self).scanner == old(self).scanner,
            final(self).function.chunk.code@ == old(self).function.chunk.code@.push(
                opcode_byte(OpCode::Return),
            ),
    {
        self.emit_simple(OpCode::Return)
    }


    /// What a statement-level step may do: scopes balanced, and (error
    /// cases aside) the locals restored.
    pub open spec fn stable_stmt(post: Compiler, pre: Compiler) -> bool {
        &&& Self::stable(post, pre)
        &&& post.scope_depth == pre.scope_depth
        &&& (locals_initialized(pre.locals@) ==> locals_initialized(post.locals@))
        &&& (post.parser.had_error || post.locals@ == pre.locals@)
    }

    /// What a declaration-level step may do: like a statement, except
    /// that it may also declare locals, each at the current depth.
    pub open spec fn stable_decl(post: Compiler, pre: Compiler) -> bool {
        &&& Self::stable(post, pre)
        &&& post.scope_depth == pre.scope_depth
        &&& (locals_initialized(pre.locals@) ==> locals_initialized(post.locals@))
        &&& (post.parser.had_error || (pre.locals@.is_prefix_of(post.locals@) && (forall|i: int|
            pre.locals@.len() <= i < post.locals@.len()
                ==> (#[trigger] post.locals@[i]).depth == Some(pre.scope_depth))))
    }

    /// Opens a block scope; reports whether one opened (the depth counter
    /// saturating is a compile error far past any real nesting).
    fn begin_scope(&mut self) -> (opened: bool)
        requires
            old(self).wf(),
            locals_initialized(old(self).locals@),
        ensures
            final(self).wf(),
            final(self).locals@ == old(self).locals@,
            final(self).scanner == old(self).scanner,
            final(self).function == old(self).function,
            final(self).parser.current == old(self).parser.current,
            final(self).parser.previous == old(self).parser.previous,
            final(self).remaining() == old(self).remaining(),
            old(self).parser.had_error ==> final(self).parser.had_error,
            opened == (old(self).scope_depth < usize::MAX),
            opened ==> final(self).scope_depth == old(self).scope_depth + 1 && final(self).parser
                == old(self).parser,
            !opened ==> final(self).scope_depth == old(self).scope_depth && final(self).parser.had_error,
    {
        if self.scope_depth < usize::MAX {
            self.scope_depth = self.scope_depth + 1;
            true
        } else {
            self.error("Too many nested scopes");
            false
        }
    }

    /// Closes a block scope: every local declared above the new depth is
    /// removed, with one pop instruction emitted for each.
    fn end_scope(&mut self)
        requires
            old(self).wf(),
            locals_initialized(old(self).locals@),
            old(self).scope_depth >= 1,
        ensures
            Self::stable(*final(self), *old(self)),
            final(self).parser == old(self).parser,
            final(self).scanner == old(self).scanner,
            final(self).scope_depth == old(self).scope_depth - 1,
            locals_initialized(final(self).locals@),
            final(self).locals@.len() <= old(self).locals@.len(),
            final(self).locals@ == old(self).locals@.subrange(
                0,
                final(self).locals@.len() as int,
            ),
            forall|i: int|
                0 <= i < final(self).locals@.len() ==> local_rank(
                    #[trigger] old(self).locals@[i],
                    old(self).scope_depth as int,
                ) <= final(self).scope_depth,
            forall|i: int|
                final(self).locals@.len() <= i < old(self).locals@.len() ==> local_rank(
                    #[trigger] old(self).locals@[i],
                    old(self).scope_depth as int,
                ) > final(self).scope_depth,
            final(self).function.chunk.code@ == old(self).function.chunk.code@ + Seq::new(
                (old(self).locals@.len() - final(self).locals@.len()) as nat,
                |i: int| opcode_byte(OpCode::Pop),
            ),
            final(self).function.chunk.constants == old(self).function.chunk.constants,
    {
        let target = self.scope_depth - 1;
        loop
            invariant
                self.wf(),
                self.scanner == old(self).scanner,
                self.parser == old(self).parser,
                self.scanner.source@ == old(self).scanner.source@,
                self.scope_depth == old(self).scope_depth,
                target == old(self).scope_depth - 1,
                locals_initialized(old(self).locals@),
                locals_ok(old(self).locals@, old(self).scope_depth as int),
                self.locals@.len() <= old(self).locals@.len(),
                self.locals@ == old(self).locals@.subrange(0, self.locals@.len() as int),
                forall|i: int|
                    self.locals@.len() <= i < old(self).locals@.len() ==> local_rank(
                        #[trigger] old(self).locals@[i],
                        old(self).scope_depth as int,
                    ) > target,
                self.function.chunk.code@ == old(self).function.chunk.code@ + Seq::new(
                    (old(self).locals@.len() - self.locals@.len()) as nat,
                    |i: int| opcode_byte(OpCode::Pop),
                ),
                self.function.chunk.constants == old(self).function.chunk.constants,
                self.function.name@ == old(self).function.name@,
                self.function.arity == old(self).function.arity,
                chunk_extends(self.function.chunk, old(self).function.chunk),
            ensures
                self.locals@.len() == 0 || local_rank(
                    self.locals@[self.locals@.len() - 1],
                    old(self).scope_depth as int,
                ) <= target,
            decreases self.locals@.len(),
        {
            let n = self.locals.len();
            if n == 0 {
                break ;
            }
            let keep = match self.locals[n - 1].depth {
                Some(d) => d <= target,
                None => {
                    proof {
                        assert(old(self).locals@[n - 1].depth is Some);
                        assert(false);
                    }
                    true
                },
            };
            if keep {
                break ;
            }
            self.emit_simple(OpCode::Pop);
            let _ = self.locals.pop();
            proof {
                assert(self.locals@ =~= old(self).locals@.subrange(0, self.locals@.len() as int));
                assert(self.function.chunk.code@ =~= old(self).function.chunk.code@ + Seq::new(
                    (old(self).locals@.len() - self.locals@.len()) as nat,
                    |i: int| opcode_byte(OpCode::Pop),
                ));
            }
        }
        self.scope_depth = target;
        proof {
            // Everything kept sits no deeper than the new scope depth: the
            // stack of locals is ordered by depth.
            let sd0 = old(self).scope_depth as int;
            let kept = self.locals@.len() as int;
            assert forall|i: int| 0 <= i < kept implies local_rank(
                #[trigger] old(self).locals@[i],
                sd0,
            ) <= self.scope_depth by {
                if kept <= old(self).locals@.len() && kept >= 1 {
                    assert(local_rank(old(self).locals@[kept - 1], sd0) <= self.scope_depth);
                    if i < kept - 1 {
                        assert(local_rank(old(self).locals@[i], sd0) <= local_rank(
                            old(self).locals@[kept - 1],
                            sd0,
                        ));
                    }
                }
            }
        }
    }

    /// Appends a new, uninitialized local; past 256 this is a compile
    /// error.
    fn add_local(&mut self, token: Token)
        requires
            old(self).wf(),
            old(self).scope_depth >= 1,
        ensures
            Self::stable(*final(self), *old(self)),
            final(self).scanner == old(self).scanner,
            final(self).scope_depth == old(self).scope_depth,
            final(self).function == old(self).function,
            final(self).parser.current == old(self).parser.current,
            final(self).parser.previous == old(self).parser.previous,
            old(self).locals@.len() < 256 ==> final(self).locals@ == old(self).locals@.push(
                Local { name: token, depth: None },
            ) && final(self).parser == old(self).parser,
            old(self).locals@.len() >= 256 ==> final(self).locals@ == old(self).locals@ && final(self).parser.had_error,
    {
        if self.locals.len() >= 256 {
            self.error("Too many local variables in the scope!");
            return ;
        }
        self.locals.push(Local { name: token, depth: None });
    }

    /// Declares a local in the current scope (a no-op at global scope):
    /// an error if a local of the same name already lives in this scope.
    fn declare_variable(&mut self)
        requires
            old(self).wf(),
        ensures
            Self::stable(*final(self), *old(self)),
            final(self).scanner == old(self).scanner,
            final(self).scope_depth == old(self).scope_depth,
            final(self).function == old(self).function,
            final(self).parser.current == old(self).parser.current,
            final(self).parser.previous == old(self).parser.previous,
            old(self).scope_depth == 0 ==> *final(self) == *old(self),
            old(self).scope_depth >= 1 ==> {
                ||| (final(self).locals@ == old(self).locals@ && final(self).parser.had_error
                    && old(self).locals@.len() >= 256)
                ||| (final(self).locals@ == old(self).locals@ && final(self).parser.had_error && (
                exists|i: int|
                    0 <= i < old(self).locals@.len() && (#[trigger] old(self).locals@[i]).name.lexeme@ == old(self).parser.previous.lexeme@
                        && local_rank(old(self).locals@[i], old(self).scope_depth as int) == old(self).scope_depth))
                    && (!old(self).parser.panic_mode ==> final(self).diagnostics@.last()@
                    == diagnostic_text(
                    old(self).parser.previous,
                    "Already declared variable with this name in the current scope."@,
                ))
                ||| final(self).locals@ == old(self).locals@.push(
                    (Local { name: old(self).parser.previous, depth: None }),
                )
            },
            old(self).scope_depth >= 1 ==> final(self).locals@.len() >= 1,
            locals_initialized(old(self).locals@) && old(self).scope_depth >= 1 && final(self).locals@.len() == old(self).locals@.len() + 1 ==> locals_initialized(
                final(self).locals@.drop_last(),
            ),
    {
        if self.scope_depth != 0 {
            let name = self.parser.previous.lexeme.clone();
            let mut index = self.locals.len();
            while index > 0
                invariant
                    self.wf(),
                    *self == *old(self),
                    self.scope_depth >= 1,
                    index <= self.locals@.len(),
                    name@ == self.parser.previous.lexeme@,
                decreases index,
            {
                index = index - 1;
                let depth = match self.locals[index].depth {
                    Some(d) => d,
                    None => self.scope_depth,
                };
                if depth < self.scope_depth {
                    break ;
                }
                if self.locals[index].name.lexeme == name {
                    self.error("Already declared variable with this name in the current scope.");
                    return ;
                }
            }
            let token = self.parser.previous.clone();
            self.add_local(token);
        }
    }

    /// Marks the newest local as initialized at the current depth (a
    /// no-op at global scope).
    fn mark_initialized(&mut self)
        requires
            old(self).wf(),
            old(self).scope_depth >= 1 ==> old(self).locals@.len() >= 1,
        ensures
            Self::stable(*final(self), *old(self)),
            final(self).scanner == old(self).scanner,
            final(self).scope_depth == old(self).scope_depth,
            final(self).function == old(self).function,
            final(self).parser == old(self).parser,
            old(self).scope_depth == 0 ==> *final(self) == *old(self),
            old(self).scope_depth >= 1 ==> final(self).locals@ == old(self).locals@.update(
                old(self).locals@.len() - 1,
                (Local {
                    name: old(self).locals@.last().name,
                    depth: Some(old(self).scope_depth),
                }),
            ),
    {
        if self.scope_depth == 0 {
            return ;
        }
        let index = self.locals.len() - 1;
        let name = self.locals[index].name.clone();
        self.locals[index] = Local { name, depth: Some(self.scope_depth) };
    }

    /// Parses a variable name: at global scope the identifier goes into
    /// the constant pool and its operand byte comes back; at local scope
    /// the name is declared and 0 comes back.
    fn parse_variable(&mut self, error_message: &str) -> (r: u8)
        requires
            old(self).wf(),
        ensures
            Self::stable(*final(self), *old(self)),
            final(self).scope_depth == old(self).scope_depth,
            final(self).function.chunk.code@ == old(self).function.chunk.code@,
            old(self).scope_depth == 0 ==> final(self).locals@ == old(self).locals@ && (r as int)
                < final(self).function.chunk.constants.values@.len(),
            old(self).scope_depth >= 1 ==> final(self).locals@.len() >= 1 && final(self).function == old(self).function && {
                ||| (final(self).locals@ == old(self).locals@ && final(self).parser.had_error)
                ||| (old(self).locals@.is_prefix_of(final(self).locals@) && final(self).locals@.len() == old(self).locals@.len() + 1 && final(self).locals@.last().depth is None)
            },
            locals_initialized(old(self).locals@) && old(self).scope_depth >= 1 && final(self).locals@.len() == old(self).locals@.len() + 1 ==> locals_initialized(
                final(self).locals@.drop_last(),
            ),
    {
        self.consume(TT::Identifier, error_message);

        self.declare_variable();
        if self.scope_depth == 0 {
            let name = self.parser.previous.lexeme.clone();
            self.identifier_constant(name.as_str())
        } else {
            0
        }
    }

    /// Defines the parsed variable: a global gets its defining
    /// instruction, a local is simply marked initialized.
    fn define_variable(&mut self, index: u8)
        requires
            old(self).wf(),
            old(self).scope_depth == 0 ==> (index as int)
                < old(self).function.chunk.constants.values@.len(),
            old(self).scope_depth >= 1 ==> old(self).locals@.len() >= 1,
        ensures
            Self::stable(*final(self), *old(self)),
            final(self).scanner == old(self).scanner,
            final(self).scope_depth == old(self).scope_depth,
            final(self).parser == old(self).parser,
            old(self).scope_depth == 0 ==> final(self).locals@ == old(self).locals@ && final(self).function.chunk.code@ == old(self).function.chunk.code@ + seq![
                opcode_byte(OpCode::DefineGlobal),
                index,
            ],
            old(self).scope_depth >= 1 ==> final(self).locals@ == old(self).locals@.update(
                old(self).locals@.len() - 1,
                (Local {
                    name: old(self).locals@.last().name,
                    depth: Some(old(self).scope_depth),
                }),
            ) && final(self).function == old(self).function,
    {
        if self.scope_depth == 0 {
            self.emit_bytes(OpCode::DefineGlobal, index);
        } else {
            self.mark_initialized();
        }
    }

    /// Finds a local by name, newest first. A hit on a local still being
    /// initialized is an error ("Cannot read local variable in its own
    /// initializer."). A miss means the name is global.
    fn resolve_local(&mut self, name: &String) -> (r: Option<u8>)
        requires
            old(self).wf(),
        ensures
            Self::stable_expr(*final(self), *old(self)),
            final(self).scanner == old(self).scanner,
            final(self).function == old(self).function,
            final(self).parser.current == old(self).parser.current,
            final(self).parser.previous == old(self).parser.previous,
            r matches Some(slot) ==> (slot as int) < old(self).locals@.len() && old(self).locals@[slot as int].name.lexeme@ == name@ && (old(self).locals@[slot as int].depth is None ==> final(self).parser.had_error),
            // the hit is the most recent local of that name
            r matches Some(slot) ==> (forall|i: int|
                slot < i < old(self).locals@.len() ==> (#[trigger] old(self).locals@[i]).name.lexeme@
                    != name@),
            r is None ==> (forall|i: int|
                0 <= i < old(self).locals@.len() ==> (#[trigger] old(self).locals@[i]).name.lexeme@ != name@) && *final(self) == *old(self),
    {
        let mut index = self.locals.len();
        while index > 0
            invariant
                self.wf(),
                *self == *old(self),
                index <= self.locals@.len(),
                forall|i: int|
                    index <= i < self.locals@.len() ==> (#[trigger] self.locals@[i]).name.lexeme@
                        != name@,
            decreases index,
        {
            index = index - 1;
            if self.locals[index].name.lexeme == *name {
                let uninitialized = self.locals[index].depth.is_none();
                if uninitialized {
                    self.error("Cannot read local variable in its own initializer.");
                }
                return Some(index as u8);
            }
        }
        None
    }


    /// Dispatches a prefix parse action.
    fn run_prefix(&mut self, f: ParseFn, can_assign: bool)
        requires
            old(self).wf(),
        ensures
            Self::stable_expr(*final(self), *old(self)),
        decreases self.remaining(), 3int,
    {
        match f {
            ParseFn::Grouping => self.grouping(can_assign),
            ParseFn::Unary => self.unary(can_assign),
            ParseFn::Variable => self.variable(can_assign),
            ParseFn::NumberLit => self.number(can_assign),
            ParseFn::StringLit => self.string(can_assign),
            ParseFn::ConstantLit => self.literal(can_assign),
            _ => {},
        }
    }

    /// Dispatches an infix parse action.
    fn run_infix(&mut self, f: ParseFn, can_assign: bool)
        requires
            old(self).wf(),
        ensures
            Self::stable_expr(*final(self), *old(self)),
        decreases self.remaining(), 3int,
    {
        match f {
            ParseFn::Binary => self.binary(can_assign),
            ParseFn::AndOp => self.and(can_assign),
            ParseFn::OrOp => self.or(can_assign),
            _ => {},
        }
    }

    /// The Pratt driver: one prefix action for the token just consumed,
    /// then infix actions while the lookahead binds at least as tightly
    /// as `precedence`.
    fn parse_precendence(&mut self, precedence: Precedence)
        requires
            old(self).wf(),
            prec_value(precedence) >= 1,
        ensures
            Self::stable_expr(*final(self), *old(self)),
            old(self).parser.current.ttype != TT::EndOfFile ==> final(self).remaining() < old(self).remaining(),
            // a token with no prefix rule in expression position is an
            // error, and nothing is emitted for it
            rule_spec(old(self).parser.current.ttype).prefix == ParseFn::Nothing && old(self).parser.current.ttype != TT::Error ==> {
                &&& final(self).parser.had_error
                &&& final(self).function.chunk.code@ == old(self).function.chunk.code@
            },
        decreases self.remaining(), 0int,
    {
        self.advance();
        let prefix = get_rule(self.parser.previous.ttype).prefix;
        if matches!(prefix, ParseFn::Nothing) {
            self.error("Expected expression");
            return ;
        }
        proof {
            assert(self.remaining() < old(self).remaining());
        }
        let can_assign = precedence.le(Precedence::Assignment);
        self.run_prefix(prefix, can_assign);
        loop
            invariant
                self.wf(),
                prec_value(precedence) >= 1,
                self.scanner.source@ == old(self).scanner.source@,
                self.function.name@ == old(self).function.name@,
                self.function.arity == old(self).function.arity,
                chunk_extends(self.function.chunk, old(self).function.chunk),
                self.locals@ == old(self).locals@,
                self.scope_depth == old(self).scope_depth,
                old(self).parser.had_error ==> self.parser.had_error,
                self.remaining() < old(self).remaining(),
            decreases self.remaining(),
        {
            let rule = get_rule(self.parser.current.ttype);
            if !precedence.le(rule.precedence) {
                break ;
            }
            self.advance();
            let infix = get_rule(self.parser.previous.ttype).infix;
            if !matches!(infix, ParseFn::Nothing) {
                self.run_infix(infix, can_assign);
            }
            if can_assign && self.is_match(TT::Assign) {
                self.error("Invalid assignment target.");
            }
        }
    }

    /// Parses one expression.
    fn expression(&mut self)
        requires
            old(self).wf(),
        ensures
            Self::stable_expr(*final(self), *old(self)),
            old(self).parser.current.ttype != TT::EndOfFile ==> final(self).remaining() < old(self).remaining(),
            // a token with no prefix rule is an error, and nothing is
            // emitted for it
            rule_spec(old(self).parser.current.ttype).prefix == ParseFn::Nothing && old(self).parser.current.ttype != TT::Error ==> {
                &&& final(self).parser.had_error
                &&& final(self).function.chunk.code@ == old(self).function.chunk.code@
            },
        decreases self.remaining(), 1int,
    {
        self.parse_precendence(Precedence::Assignment)
    }

    /// A parenthesized expression.
    fn grouping(&mut self, _can_assign: bool)
        requires
            old(self).wf(),
        ensures
            Self::stable_expr(*final(self), *old(self)),
            // a grouping ends just past its closing parenthesis, or with
            // an error
            final(self).parser.had_error || final(self).parser.previous.ttype == TT::RightParen,
        decreases self.remaining(), 2int,
    {
        self.expression();
        self.consume(TT::RightParen, "Expected ')' after expression.")
    }

    /// A unary operator: its operand at unary precedence, then the
    /// instruction.
    fn unary(&mut self, _can_assign: bool)
        requires
            old(self).wf(),
        ensures
            Self::stable_expr(*final(self), *old(self)),
            // after the operand's code, exactly the operator's instruction
            old(self).parser.previous.ttype == TT::Minus ==> final(self).function.chunk.code@.last()
                == opcode_byte(OpCode::Negate),
            old(self).parser.previous.ttype == TT::Bang ==> final(self).function.chunk.code@.last()
                == opcode_byte(OpCode::Not),
        decreases self.remaining(), 2int,
    {
        let operator = self.parser.previous.ttype;
        self.parse_precendence(Precedence::Unary);
        match operator {
            TT::Minus => self.emit_simple(OpCode::Negate),
            TT::Bang => self.emit_simple(OpCode::Not),
            _ => {},
        }
    }

    /// A binary operator: its right operand one level tighter, then the
    /// instruction (comparisons compile to their dual plus a not).
    fn binary(&mut self, _can_assign: bool)
        requires
            old(self).wf(),
        ensures
            Self::stable_expr(*final(self), *old(self)),
            // after the right operand's code, exactly the operator's
            // instruction (the three negated comparisons compile to their
            // dual followed by a not)
            old(self).parser.previous.ttype == TT::Plus ==> final(self).function.chunk.code@.last()
                == opcode_byte(OpCode::Add),
            old(self).parser.previous.ttype == TT::Minus ==> final(self).function.chunk.code@.last() == opcode_byte(OpCode::Substract),
            old(self).parser.previous.ttype == TT::Star ==> final(self).function.chunk.code@.last()
                == opcode_byte(OpCode::Multiply),
            old(self).parser.previous.ttype == TT::Slash ==> final(self).function.chunk.code@.last() == opcode_byte(OpCode::Divide),
            old(self).parser.previous.ttype == TT::Equals ==> final(self).function.chunk.code@.last() == opcode_byte(OpCode::Equal),
            old(self).parser.previous.ttype == TT::Less ==> final(self).function.chunk.code@.last()
                == opcode_byte(OpCode::Less),
            old(self).parser.previous.ttype == TT::Greater ==> final(self).function.chunk.code@.last() == opcode_byte(OpCode::Greater),
            old(self).parser.previous.ttype == TT::BangEquals ==> final(self).function.chunk.code@.len() >= 2 && final(self).function.chunk.code@.last()
                == opcode_byte(OpCode::Not) && final(self).function.chunk.code@[final(self).function.chunk.code@.len() - 2] == opcode_byte(OpCode::Equal),
            old(self).parser.previous.ttype == TT::GreaterEquals ==> final(self).function.chunk.code@.len() >= 2 && final(self).function.chunk.code@.last()
                == opcode_byte(OpCode::Not) && final(self).function.chunk.code@[final(self).function.chunk.code@.len() - 2] == opcode_byte(OpCode::Greater),
            old(self).parser.previous.ttype == TT::LessEquals ==> final(self).function.chunk.code@.len() >= 2 && final(self).function.chunk.code@.last()
                == opcode_byte(OpCode::Not) && final(self).function.chunk.code@[final(self).function.chunk.code@.len() - 2] == opcode_byte(OpCode::Less),
        decreases self.remaining(), 2int,
    {
        let op_type = self.parser.previous.ttype;
        let rule = get_rule(op_type);
        let next_prec = if matches!(rule.precedence, Precedence::Primary) {
            Precedence::Primary
        } else {
            rule.precedence.next()
        };
        self.parse_precendence(next_prec);

        match op_type {
            TT::Plus => self.emit_simple(OpCode::Add),
            TT::Minus => self.emit_simple(OpCode::Substract),
            TT::Star => self.emit_simple(OpCode::Multiply),
            TT::Slash => self.emit_simple(OpCode::Divide),
            TT::Equals => self.emit_simple(OpCode::Equal),
            TT::Less => self.emit_simple(OpCode::Less),
            TT::Greater => self.emit_simple(OpCode::Greater),
            TT::BangEquals => {
                self.emit_simple(OpCode::Equal);
                self.emit_simple(OpCode::Not);
            },
            TT::GreaterEquals => {
                self.emit_simple(OpCode::Greater);
                self.emit_simple(OpCode::Not);
            },
            TT::LessEquals => {
                self.emit_simple(OpCode::Less);
                self.emit_simple(OpCode::Not);
            },
            _ => {},
        }
    }

    /// Short-circuit conjunction: a false left operand jumps over the
    /// right one.
    fn and(&mut self, _can_assign: bool)
        requires
            old(self).wf(),
        ensures
            Self::stable_expr(*final(self), *old(self)),
            // the left operand's value is on the stack: a conditional jump
            // over [pop; right operand], aimed at the end of this code
            ({
                let pre = old(self).function.chunk.code@;
                let post = final(self).function.chunk.code@;
                &&& post.len() >= pre.len() + 4
                &&& post[pre.len() as int] == opcode_byte(OpCode::JumpIfFalse)
                &&& post[pre.len() as int + 3] == opcode_byte(OpCode::Pop)
                &&& (post.len() - pre.len() - 3 <= 65535 ==> post[pre.len() as int + 1] * 256
                    + post[pre.len() as int + 2] == post.len() - pre.len() - 3)
            }),
        decreases self.remaining(), 2int,
    {
        let ghost jif_at = self.function.chunk.code@.len() as int;
        let end_jump = self.emit_jump(OpCode::JumpIfFalse);
        let ghost pop_at = self.function.chunk.code@.len() as int;
        self.emit_simple(OpCode::Pop);
        let ghost c2 = self.function.chunk.code@;
        proof {
            assert(c2[jif_at] == opcode_byte(OpCode::JumpIfFalse));
            assert(c2[pop_at] == opcode_byte(OpCode::Pop));
            assert(!patchable(c2, jif_at));
            assert(!patchable(c2, pop_at));
        }
        self.parse_precendence(Precedence::And);
        let ghost c3 = self.function.chunk.code@;
        proof {
            assert(c3[jif_at] == c2[jif_at]);
            assert(c3[pop_at] == c2[pop_at]);
            assert(!patchable(c3, jif_at));
            assert(!patchable(c3, pop_at));
        }
        self.finish_jump(end_jump);
        proof {
            assert(self.function.chunk.code@[jif_at] == c3[jif_at]);
            assert(self.function.chunk.code@[pop_at] == c3[pop_at]);
        }
    }

    /// Short-circuit disjunction: a true left operand jumps over the
    /// right one.
    fn or(&mut self, _can_assign: bool)
        requires
            old(self).wf(),
        ensures
            Self::stable_expr(*final(self), *old(self)),
            // a conditional jump over the unconditional exit jump (falsy
            // falls through to [pop; right operand]); the exit jump is
            // aimed at the end of this code
            ({
                let pre = old(self).function.chunk.code@;
                let post = final(self).function.chunk.code@;
                &&& post.len() >= pre.len() + 7
                &&& post[pre.len() as int] == opcode_byte(OpCode::JumpIfFalse)
                &&& post[pre.len() as int + 3] == opcode_byte(OpCode::Jump)
                &&& post[pre.len() as int + 6] == opcode_byte(OpCode::Pop)
                &&& (post.len() - pre.len() - 6 <= 65535 ==> post[pre.len() as int + 4] * 256
                    + post[pre.len() as int + 5] == post.len() - pre.len() - 6)
            }),
        decreases self.remaining(), 2int,
    {
        let ghost jif_at = self.function.chunk.code@.len() as int;
        let else_jump = self.emit_jump(OpCode::JumpIfFalse);
        let ghost jmp_at = self.function.chunk.code@.len() as int;
        let end_jump = self.emit_jump(OpCode::Jump);
        let ghost c1 = self.function.chunk.code@;
        proof {
            assert(c1[jif_at] == opcode_byte(OpCode::JumpIfFalse));
            assert(c1[jmp_at] == opcode_byte(OpCode::Jump));
            assert(!patchable(c1, jif_at));
            assert(!patchable(c1, jmp_at));
        }

        self.finish_jump(else_jump);
        let ghost pop_at = self.function.chunk.code@.len() as int;
        self.emit_simple(OpCode::Pop);
        let ghost c2 = self.function.chunk.code@;
        proof {
            assert(c2[jif_at] == c1[jif_at]);
            assert(c2[jmp_at] == c1[jmp_at]);
            assert(c2[pop_at] == opcode_byte(OpCode::Pop));
            assert(!patchable(c2, jif_at));
            assert(!patchable(c2, jmp_at));
            assert(!patchable(c2, pop_at));
        }

        self.parse_precendence(Precedence::Or);
        let ghost c3 = self.function.chunk.code@;
        proof {
            assert(c3[jif_at] == c2[jif_at]);
            assert(c3[jmp_at] == c2[jmp_at]);
            assert(c3[pop_at] == c2[pop_at]);
            assert(!patchable(c3, jif_at));
            assert(!patchable(c3, jmp_at));
            assert(!patchable(c3, pop_at));
        }
        self.finish_jump(end_jump);
        proof {
            assert(self.function.chunk.code@[jif_at] == c3[jif_at]);
            assert(self.function.chunk.code@[jmp_at] == c3[jmp_at]);
            assert(self.function.chunk.code@[pop_at] == c3[pop_at]);
        }
    }

    /// A number literal becomes a constant-loading instruction.
    fn number(&mut self, _can_assign: bool)
        requires
            old(self).wf(),
        ensures
            Self::stable_expr(*final(self), *old(self)),
            // a number literal loads a fresh constant holding its value
            ({
                let lit = old(self).parser.previous.literal;
                (lit is Some && lit->0 is Number && old(
                    self,
                ).function.chunk.constants.values@.len() < 256) ==> {
                    &&& final(self).function.chunk.code@ == old(self).function.chunk.code@ + seq![
                        opcode_byte(OpCode::Constant),
                        old(self).function.chunk.constants.values@.len() as u8,
                    ]
                    &&& final(self).function.chunk.constants.values@ == old(
                        self,
                    ).function.chunk.constants.values@.push(Value::Number(lit->0->Number_0))
                }
            }),
    {
        let lit = match &self.parser.previous.literal {
            Some(l) => Some(l.clone()),
            None => None,
        };
        if let Some(payload) = lit {
            if let Literal::Number(v) = payload {
                self.emit_constant(Value::Number(v));
            }
        }
    }

    /// A true, false or nil literal becomes its dedicated instruction.
    fn literal(&mut self, _can_assign: bool)
        requires
            old(self).wf(),
        ensures
            Self::stable_expr(*final(self), *old(self)),
            // true, false and nil compile to their dedicated instructions
            ({
                let lit = old(self).parser.previous.literal;
                (lit is Some && lit->0 is Boolean) ==> final(self).function.chunk.code@ == old(
                    self,
                ).function.chunk.code@.push(
                    if lit->0->Boolean_0 {
                        opcode_byte(OpCode::True)
                    } else {
                        opcode_byte(OpCode::False)
                    },
                )
            }),
            ({
                let lit = old(self).parser.previous.literal;
                (lit is Some && lit->0 is Nil) ==> final(self).function.chunk.code@ == old(
                    self,
                ).function.chunk.code@.push(opcode_byte(OpCode::Nil))
            }),
    {
        let lit = match &self.parser.previous.literal {
            Some(l) => Some(l.clone()),
            None => None,
        };
        if let Some(payload) = lit {
            match payload {
                Literal::Boolean(b) => {
                    if b {
                        self.emit_simple(OpCode::True)
                    } else {
                        self.emit_simple(OpCode::False)
                    }
                },
                Literal::Nil => self.emit_simple(OpCode::Nil),
                _ => {},
            }
        }
    }

    /// A string literal becomes a constant-loading instruction.
    fn string(&mut self, _can_assign: bool)
        requires
            old(self).wf(),
        ensures
            Self::stable_expr(*final(self), *old(self)),
            // a string literal loads a fresh constant holding its text
            ({
                let lit = old(self).parser.previous.literal;
                (lit is Some && lit->0 is Str && old(self).function.chunk.constants.values@.len()
                    < 256) ==> {
                    &&& final(self).function.chunk.code@ == old(self).function.chunk.code@ + seq![
                        opcode_byte(OpCode::Constant),
                        old(self).function.chunk.constants.values@.len() as u8,
                    ]
                    &&& final(self).function.chunk.constants.values@ == old(
                        self,
                    ).function.chunk.constants.values@.push(Value::Str(lit->0->Str_0))
                }
            }),
    {
        let lit = match &self.parser.previous.literal {
            Some(l) => Some(l.clone()),
            None => None,
        };
        if let Some(payload) = lit {
            if let Literal::Str(text) = payload {
                self.emit_constant(Value::Str(text));
            }
        }
    }

    /// An identifier in expression position: a read, or an assignment
    /// when an `=` follows and assignment is allowed here.
    fn variable(&mut self, can_assign: bool)
        requires
            old(self).wf(),
        ensures
            Self::stable_expr(*final(self), *old(self)),
            // one variable instruction ends the emission
            final(self).function.chunk.code@.len() >= old(self).function.chunk.code@.len() + 2,
            ({
                let op = final(self).function.chunk.code@[final(self).function.chunk.code@.len()
                    - 2];
                ||| op == opcode_byte(OpCode::GetLocal)
                ||| op == opcode_byte(OpCode::SetLocal)
                ||| op == opcode_byte(OpCode::GetGlobal)
                ||| op == opcode_byte(OpCode::SetGlobal)
            }),
            !can_assign ==> {
                let op = final(self).function.chunk.code@[final(self).function.chunk.code@.len()
                    - 2];
                op == opcode_byte(OpCode::GetLocal) || op == opcode_byte(OpCode::GetGlobal)
            },
        decreases self.remaining(), 2int,
    {
        let name = self.parser.previous.lexeme.clone();
        self.named_variable(&name, can_assign);
    }

    /// Compiles a variable access or assignment, choosing the local or
    /// global instruction pair.
    fn named_variable(&mut self, name: &String, can_assign: bool)
        requires
            old(self).wf(),
        ensures
            Self::stable_expr(*final(self), *old(self)),
            // after any assigned value's code, exactly one variable
            // instruction with its slot or name operand
            final(self).function.chunk.code@.len() >= old(self).function.chunk.code@.len() + 2,
            ({
                let op = final(self).function.chunk.code@[final(self).function.chunk.code@.len()
                    - 2];
                ||| op == opcode_byte(OpCode::GetLocal)
                ||| op == opcode_byte(OpCode::SetLocal)
                ||| op == opcode_byte(OpCode::GetGlobal)
                ||| op == opcode_byte(OpCode::SetGlobal)
            }),
            // a bare read never emits an assignment
            !can_assign ==> {
                let op = final(self).function.chunk.code@[final(self).function.chunk.code@.len()
                    - 2];
                op == opcode_byte(OpCode::GetLocal) || op == opcode_byte(OpCode::GetGlobal)
            },
        decreases self.remaining(), 1int,
    {
        let resolved = self.resolve_local(name);
        match resolved {
            Some(slot) => {
                if can_assign && self.is_match(TT::Assign) {
                    self.expression();
                    self.emit_bytes(OpCode::SetLocal, slot);
                } else {
                    self.emit_bytes(OpCode::GetLocal, slot);
                }
            },
            None => {
                let index = self.identifier_constant(name.as_str());
                if can_assign && self.is_match(TT::Assign) {
                    self.expression();
                    self.emit_bytes(OpCode::SetGlobal, index);
                } else {
                    self.emit_bytes(OpCode::GetGlobal, index);
                }
            },
        }
    }

    /// A print statement: the value, then the print instruction.
    fn print_statement(&mut self)
        requires
            old(self).wf(),
        ensures
            Self::stable_expr(*final(self), *old(self)),
            // the value's code, then the print instruction
            final(self).function.chunk.code@.last() == opcode_byte(OpCode::Print),
            final(self).function.chunk.code@.len() > old(self).function.chunk.code@.len(),
    {
        self.expression();
        self.consume(TT::Semicolon, "Expected ';' after the value.");
        self.emit_simple(OpCode::Print);
    }

    /// An expression statement: the value, then a pop.
    fn expression_statement(&mut self)
        requires
            old(self).wf(),
        ensures
            Self::stable_expr(*final(self), *old(self)),
            old(self).parser.current.ttype != TT::EndOfFile ==> final(self).remaining() < old(self).remaining(),
            // the value's code, then the pop that discards it
            final(self).function.chunk.code@.last() == opcode_byte(OpCode::Pop),
            final(self).function.chunk.code@.len() > old(self).function.chunk.code@.len(),
    {
        self.expression();
        self.consume(TT::Semicolon, "Expected ';' after expression.");
        self.emit_simple(OpCode::Pop);
    }

    /// An if statement, with an optional else arm, compiled with one
    /// conditional and one unconditional jump.
    fn if_statement(&mut self)
        requires
            old(self).wf(),
            locals_initialized(old(self).locals@),
        ensures
            Self::stable_stmt(*final(self), *old(self)),
            // at least the conditional jump, the unconditional jump and
            // the pop on each arm are emitted
            final(self).function.chunk.code@.len() >= old(self).function.chunk.code@.len() + 8,
        decreases self.remaining(), 1int,
    {
        self.consume(TT::LeftParen, "Expect '(' after 'if'!");
        self.expression();
        self.consume(TT::RightParen, "Expect ')' after condition");

        let jump_to = self.emit_jump(OpCode::JumpIfFalse);
        self.emit_simple(OpCode::Pop);

        self.statement();

        let else_to: usize = self.emit_jump(OpCode::Jump);

        self.finish_jump(jump_to);

        self.emit_simple(OpCode::Pop);

        if self.is_match(TT::Else) {
            self.statement();
        }
        self.finish_jump(else_to);
    }

    /// A while statement: condition, conditional exit, body, and a loop
    /// instruction back to the condition.
    fn while_statement(&mut self)
        requires
            old(self).wf(),
            locals_initialized(old(self).locals@),
        ensures
            Self::stable_stmt(*final(self), *old(self)),
        decreases self.remaining(), 1int,
    {
        let loop_start: usize = self.function.size();
        self.consume(TT::LeftParen, "Expect '(' after 'while'.");
        self.expression();
        self.consume(TT::RightParen, "Expected ')' after condition.");

        let exit_jump = self.emit_jump(OpCode::JumpIfFalse);
        self.emit_simple(OpCode::Pop);
        self.statement();
        self.emit_loop(loop_start);

        self.finish_jump(exit_jump);
        self.emit_simple(OpCode::Pop);
    }

    /// A for statement, desugared: initializer in its own scope, optional
    /// condition with an exit jump, optional incrementer jumped over and
    /// looped back to.
    #[verifier::rlimit(100)]
    fn for_statement(&mut self)
        requires
            old(self).wf(),
            locals_initialized(old(self).locals@),
        ensures
            Self::stable_stmt(*final(self), *old(self)),
        decreases self.remaining(), 1int,
    {
        let opened = self.begin_scope();
        self.consume(TT::LeftParen, "Expect '(' after 'for'");
        if self.is_match(TT::Semicolon) {
        } else if self.is_match(TT::Var) {
            self.var_declaration();
        } else {
            self.expression_statement();
        }
        let mut loop_start: usize = self.function.size();
        let exit_jump = if self.is_match(TT::Semicolon) {
            None
        } else {
            self.expression();
            self.consume(TT::Semicolon, "Expect ';' after the condition.");
            let result = self.emit_jump(OpCode::JumpIfFalse);
            self.emit_simple(OpCode::Pop);
            Some(result)
        };
        if !self.is_match(TT::RightParen) {
            let body_jump = self.emit_jump(OpCode::Jump);
            let increment_start = self.function.size();

            self.expression();
            self.emit_simple(OpCode::Pop);

            self.consume(TT::RightParen, "Expect ')' after for clauses.");
            self.emit_loop(loop_start);
            loop_start = increment_start;
            self.finish_jump(body_jump);
        }
        self.statement();
        self.emit_loop(loop_start);

        if let Some(exit) = exit_jump {
            self.finish_jump(exit);
            self.emit_simple(OpCode::Pop);
        }
        let ghost pre_end_locals = self.locals@;
        let ghost pre_end_sd = self.scope_depth;
        if opened {
            self.end_scope();
            proof {
                if !self.parser.had_error {
                    let entry = old(self).locals@;
                    let k = self.locals@.len() as int;
                    if k < entry.len() {
                        assert(pre_end_locals[k] == entry[k]);
                        assert(entry[k].depth is Some);
                        assert(local_rank(pre_end_locals[k], pre_end_sd as int)
                        <= self.scope_depth);
                    }
                    if k > entry.len() {
                        assert(pre_end_locals[entry.len() as int].depth == Some(
                        (pre_end_sd) as usize,
                        ));
                        assert(local_rank(pre_end_locals[entry.len() as int], pre_end_sd as int)
                        > self.scope_depth);
                    }
                    assert(k == entry.len());
                    assert(self.locals@ =~= entry);
                }
            }
        }
    }

    /// A block: declarations until the closing brace.
    fn block(&mut self)
        requires
            old(self).wf(),
            locals_initialized(old(self).locals@),
        ensures
            Self::stable_decl(*final(self), *old(self)),
            // a block ends just past its closing brace, or with an error
            final(self).parser.had_error || final(self).parser.previous.ttype
                == TT::RightBracket,
        decreases self.remaining(), 2int,
    {
        loop
            invariant
                self.wf(),
                self.scanner.source@ == old(self).scanner.source@,
                self.function.name@ == old(self).function.name@,
                self.function.arity == old(self).function.arity,
                chunk_extends(self.function.chunk, old(self).function.chunk),
                self.scope_depth == old(self).scope_depth,
                self.remaining() <= old(self).remaining(),
                old(self).parser.had_error ==> self.parser.had_error,
                locals_initialized(old(self).locals@) ==> locals_initialized(self.locals@),
                self.parser.had_error || (old(self).locals@.is_prefix_of(self.locals@) && (
                forall|i: int|
                    old(self).locals@.len() <= i < self.locals@.len()
                        ==> (#[trigger] self.locals@[i]).depth == Some(old(self).scope_depth))),
                locals_initialized(old(self).locals@),
            decreases self.remaining(),
        {
            if self.check(TT::RightBracket) {
                break ;
            }
            if self.check(TT::EndOfFile) {
                break ;
            }
            let ghost mid = self.locals@;
            self.declaration();
            proof {
                if !self.parser.had_error {
                    let pre = old(self).locals@;
                    let post = self.locals@;
                    assert forall|i: int| 0 <= i < mid.len() implies post[i] == mid[i] by {
                        assert(mid.is_prefix_of(post));
                    }
                    assert(post.subrange(0, pre.len() as int) =~= pre);
                    assert(pre.is_prefix_of(post));
                    assert forall|i: int|
                        pre.len() <= i < post.len() implies (#[trigger] post[i]).depth == Some(
                        old(self).scope_depth,
                    ) by {
                        if i < mid.len() {
                            assert(mid[i].depth == Some(old(self).scope_depth));
                        }
                    }
                }
            }
        }

        self.consume(TT::RightBracket, "Expect '}' after block.");
    }

    /// One statement of any kind.
    fn statement(&mut self)
        requires
            old(self).wf(),
            locals_initialized(old(self).locals@),
        ensures
            Self::stable_stmt(*final(self), *old(self)),
            old(self).parser.current.ttype != TT::EndOfFile ==> final(self).remaining() < old(self).remaining(),
        decreases self.remaining(), 0int,
    {
        if self.is_match(TT::Print) {
            self.print_statement();
        } else if self.is_match(TT::If) {
            self.if_statement();
        } else if self.is_match(TT::While) {
            self.while_statement();
        } else if self.is_match(TT::For) {
            self.for_statement();
        } else if self.is_match(TT::LeftBracket) {
            let opened = self.begin_scope();
            self.block();
            let ghost pre_end_locals = self.locals@;
            let ghost pre_end_sd = self.scope_depth;
            if opened {
                self.end_scope();
                proof {
                    if !self.parser.had_error {
                        let entry = old(self).locals@;
                        let k = self.locals@.len() as int;
                        if k < entry.len() {
                            assert(pre_end_locals[k] == entry[k]);
                            assert(entry[k].depth is Some);
                            assert(local_rank(pre_end_locals[k], pre_end_sd as int)
                                <= self.scope_depth);
                        }
                        if k > entry.len() {
                            assert(pre_end_locals[entry.len() as int].depth == Some(
                                (pre_end_sd) as usize,
                            ));
                            assert(local_rank(pre_end_locals[entry.len() as int], pre_end_sd as int)
                                > self.scope_depth);
                        }
                        assert(k == entry.len());
                        assert(self.locals@ =~= entry);
                    }
                }
            }
        } else {
            self.expression_statement();
        }
    }

    /// A variable declaration: name, optional initializer (nil when
    /// absent), semicolon, definition.
    fn var_declaration(&mut self)
        requires
            old(self).wf(),
            locals_initialized(old(self).locals@),
        ensures
            Self::stable_decl(*final(self), *old(self)),
            // a global declaration ends with its defining instruction
            old(self).scope_depth == 0 ==> final(self).function.chunk.code@.len() >= old(self).function.chunk.code@.len() + 2 && final(self).function.chunk.code@[final(self).function.chunk.code@.len() - 2] == opcode_byte(OpCode::DefineGlobal),
    {
        let global = self.parse_variable("Expect variable name.");
        let ghost mid = self.locals@;

        if self.is_match(TT::Assign) {
            self.expression();
        } else {
            self.emit_simple(OpCode::Nil);
        }

        self.consume(TT::Semicolon, "Expect ';' after expression.");

        self.define_variable(global);
        proof {
            if locals_initialized(old(self).locals@) {
                let pre = old(self).locals@;
                let post = self.locals@;
                assert forall|i: int| 0 <= i < post.len() implies (#[trigger] post[i]).depth
                    is Some by {
                    if old(self).scope_depth == 0 {
                        assert(post[i] == pre[i]);
                    } else {
                        if i < mid.len() - 1 {
                            assert(post[i] == mid[i]);
                            if i < pre.len() {
                                assert(mid[i] == pre[i]);
                            }
                        }
                    }
                }
            }
            if !self.parser.had_error {
                let pre = old(self).locals@;
                let post = self.locals@;
                assert forall|i: int| 0 <= i < pre.len() implies post[i] == pre[i] by {
                    assert(mid[i] == pre[i]);
                }
                assert(post.subrange(0, pre.len() as int) =~= pre);
                assert(pre.is_prefix_of(post));
                if old(self).scope_depth >= 1 {
                    assert(post.len() == pre.len() + 1);
                    assert(post[pre.len() as int].depth == Some(old(self).scope_depth));
                }
                if locals_initialized(pre) {
                    assert forall|i: int| 0 <= i < post.len() implies (#[trigger] post[i]).depth
                        is Some by {
                        if i < pre.len() {
                            assert(post[i] == pre[i]);
                        }
                    }
                }
            }
        }
    }

    /// A function declaration. Function bodies are not part of this
    /// subset: the name is declared and defined, the body is not
    /// compiled.
    fn fun_declaration(&mut self)
        requires
            old(self).wf(),
            locals_initialized(old(self).locals@),
        ensures
            Self::stable_decl(*final(self), *old(self)),
    {
        let global = self.parse_variable("Expected function name");
        let ghost mid = self.locals@;
        self.mark_initialized();
        self.function();
        self.define_variable(global);
        proof {
            if locals_initialized(old(self).locals@) {
                let pre = old(self).locals@;
                let post = self.locals@;
                assert forall|i: int| 0 <= i < post.len() implies (#[trigger] post[i]).depth
                    is Some by {
                    if old(self).scope_depth == 0 {
                        assert(post[i] == pre[i]);
                    } else {
                        if i < mid.len() - 1 {
                            assert(post[i] == mid[i]);
                            if i < pre.len() {
                                assert(mid[i] == pre[i]);
                            }
                        }
                    }
                }
            }
            if !self.parser.had_error {
                let pre = old(self).locals@;
                let post = self.locals@;
                assert forall|i: int| 0 <= i < pre.len() implies post[i] == pre[i] by {
                    assert(mid[i] == pre[i]);
                }
                assert(post.subrange(0, pre.len() as int) =~= pre);
                assert(pre.is_prefix_of(post));
                if old(self).scope_depth >= 1 {
                    assert(post.len() == pre.len() + 1);
                    assert(post[pre.len() as int].depth == Some(old(self).scope_depth));
                }
                if locals_initialized(pre) {
                    assert forall|i: int| 0 <= i < post.len() implies (#[trigger] post[i]).depth
                        is Some by {
                        if i < pre.len() {
                            assert(post[i] == pre[i]);
                        }
                    }
                }
            }
        }
    }

    /// Function bodies are out of scope for this subset; nothing of them
    /// compiles.
    fn function(&mut self)
        ensures
            *final(self) == *old(self),
    {
    }

    /// One declaration: a function or variable declaration, or a
    /// statement, with panic-mode recovery when it went wrong.
    fn declaration(&mut self)
        requires
            old(self).wf(),
            locals_initialized(old(self).locals@),
        ensures
            Self::stable_decl(*final(self), *old(self)),
            old(self).parser.current.ttype != TT::EndOfFile ==> final(self).remaining() < old(self).remaining(),
        decreases self.remaining(), 1int,
    {
        if self.is_match(TT::Fun) {
            self.fun_declaration();
        } else if self.is_match(TT::Var) {
            self.var_declaration();
        } else {
            self.statement();
        }
        if self.had_error() {
            self.synchronize();
        }
    }

    /// Readies the function's chunk for a fresh emission.
    fn initialize(&mut self)
        ensures
            final(self).function.chunk.code@ == Seq::<u8>::empty(),
            final(self).function.chunk.lines@ == Seq::<usize>::empty(),
            final(self).function.chunk.constants.values@ == Seq::<Value>::empty(),
            final(self).function.name@ == old(self).function.name@,
            final(self).function.arity == old(self).function.arity,
            final(self).parser == old(self).parser,
            final(self).scanner == old(self).scanner,
            final(self).locals@ == old(self).locals@,
            final(self).scope_depth == old(self).scope_depth,
            final(self).diagnostics@ == old(self).diagnostics@,
    {
        self.function.initialize_emiter()
    }

    /// Emission needs no closing step.
    fn finalize(&mut self)
        ensures
            *final(self) == *old(self),
    {
        self.function.finalize_emiter();
    }

    /// Compiles `source` into a function. The result is the compiled
    /// script when no error was reported, and the chunk of the compiled
    /// function is well formed: its line map covers the code and every
    /// constant operand indexes the pool.
    pub fn compile(&mut self, source: &str) -> (r: Result<Function, InterpretResult>)
        requires
            old(self).wf(),
            locals_initialized(old(self).locals@),
        ensures
            final(self).wf(),
            r is Ok <==> !final(self).parser.had_error,
            r is Ok <==> final(self).diagnostics@.len() == 0,
            r matches Err(e) ==> e == InterpretResult::CompilerError,
            r matches Ok(f) ==> {
                &&& f.chunk.lines@.len() == f.chunk.code@.len()
                &&& code_wf(f.chunk.code@, f.chunk.constants.values@.len() as int)
                &&& f.chunk.code@.len() >= 1
                &&& f.chunk.code@.last() == opcode_byte(OpCode::Return)
            },
    {
        self.initialize();
        self.scanner = Scanner::new(source);
        self.advance();

        loop
            invariant
                self.wf(),
                locals_initialized(self.locals@),
            decreases self.remaining(),
        {
            if self.is_match(TT::EndOfFile) {
                break ;
            }
            self.declaration();
        }

        self.end_compiler();
        self.consume(TT::EndOfFile, "Expected end of expression");
        self.finalize();

        if self.had_error() {
            Err(InterpretResult::CompilerError)
        } else {
            Ok(self.function.clone())
        }
    }

    fn end_compiler(&mut self)
        requires
            old(self).wf(),
        ensures
            Self::stable_expr(*final(self), *old(self)),
            final(self).parser == old(self).parser,
            final(self).scanner == old(self).scanner,
            final(self).function.chunk.code@ == old(self).function.chunk.code@.push(
                opcode_byte(OpCode::Return),
            ),
    {
        self.emit_return()
    }
}

} // verus!
