//! The scanner: pulls one token at a time out of the source text, tracking
//! line numbers, and recognizes keywords with an Aho-Corasick automaton
//! built over the keyword set.
use crate::num::{self, all_digits, is_digit, is_number_lexeme};
use crate::token::{Literal, Token, TT};
use aho_corasick::AhoCorasick;
use vstd::prelude::*;
use vstd::std_specs::iter::{IteratorSpec, IteratorSpecImpl};

verus! {

#[verifier::external_type_specification]
#[verifier::external_body]
pub struct ExAhoCorasick(AhoCorasick);

/// The patterns an Aho-Corasick automaton was built from.
pub uninterp spec fn automaton_patterns(ac: AhoCorasick) -> Seq<Seq<char>>;

/// The sixteen keywords of the language, in the order the automaton is
/// built over them.
pub open spec fn keyword_seqs() -> Seq<Seq<char>> {
    seq![
        "and"@,
        "class"@,
        "else"@,
        "false"@,
        "for"@,
        "fun"@,
        "if"@,
        "nil"@,
        "or"@,
        "print"@,
        "return"@,
        "super"@,
        "this"@,
        "true"@,
        "var"@,
        "while"@,
    ]
}

/// `needle` occurs as a contiguous run inside `hay`.
pub open spec fn occurs_in(needle: Seq<char>, hay: Seq<char>) -> bool {
    exists|i: int|
        0 <= i && i + needle.len() <= hay.len() && #[trigger] hay.subrange(i, i + needle.len())
            == needle
}

/// Every sequence occurs in itself.
pub proof fn lemma_occurs_refl(s: Seq<char>)
    ensures
        occurs_in(s, s),
{
    assert(s.subrange(0, 0 + s.len() as int) =~= s);
}

/// The token kind an identifier lexeme scans as: its keyword kind when it
/// is exactly a keyword, and a plain identifier otherwise.
pub open spec fn keyword_token(s: Seq<char>) -> TT {
    if s == "and"@ {
        TT::And
    } else if s == "false"@ {
        TT::Constant
    } else if s == "true"@ {
        TT::Constant
    } else if s == "nil"@ {
        TT::Constant
    } else if s == "while"@ {
        TT::While
    } else if s == "for"@ {
        TT::For
    } else if s == "fun"@ {
        TT::Fun
    } else if s == "class"@ {
        TT::Class
    } else if s == "super"@ {
        TT::Super
    } else if s == "this"@ {
        TT::This
    } else if s == "or"@ {
        TT::Or
    } else if s == "else"@ {
        TT::Else
    } else if s == "print"@ {
        TT::Print
    } else if s == "return"@ {
        TT::Return
    } else if s == "var"@ {
        TT::Var
    } else if s == "if"@ {
        TT::If
    } else {
        TT::Identifier
    }
}

/// Relies on `aho_corasick::AhoCorasick::new`: builds the automaton over
/// the sixteen keywords. Construction fails only past size limits far
/// beyond sixteen short ASCII patterns, so the call cannot fail here.
#[verifier::external_body]
fn keyword_automaton() -> (ac: AhoCorasick)
    ensures
        automaton_patterns(ac) == keyword_seqs(),
{
    AhoCorasick::new([
        "and", "class", "else", "false", "for", "fun", "if", "nil", "or", "print", "return",
        "super", "this", "true", "var", "while",
    ]).unwrap()
}

/// Relies on `aho_corasick::AhoCorasick::is_match`: true exactly when some
/// pattern of the automaton occurs as a substring of the haystack. The
/// patterns here are ASCII, for which byte-level and character-level
/// occurrence agree.
#[verifier::external_body]
fn automaton_is_match(ac: &AhoCorasick, hay: &str) -> (r: bool)
    ensures
        r == (exists|k: int|
            0 <= k < automaton_patterns(*ac).len() && occurs_in(automaton_patterns(*ac)[k], hay@)),
{
    ac.is_match(hay)
}

/// Relies on `String::from_iter` (through `Iterator::collect`): builds the
/// string holding exactly the characters `v[start..end]`.
#[verifier::external_body]
pub(crate) fn chars_to_string(v: &Vec<char>, start: usize, end: usize) -> (s: String)
    requires
        start <= end <= v@.len(),
    ensures
        s@ == v@.subrange(start as int, end as int),
{
    v[start..end].iter().collect()
}

/// Whether a character has the Unicode `Alphabetic` property.
pub uninterp spec fn char_alpha(c: char) -> bool;

/// Whether a character has a Unicode numeric general category.
pub uninterp spec fn char_numeric(c: char) -> bool;

/// Relies on `char::is_alphabetic`: the Unicode `Alphabetic` property, a
/// function of the character alone.
#[verifier::external_body]
fn is_alphabetic_char(c: char) -> (r: bool)
    ensures
        r == char_alpha(c),
{
    c.is_alphabetic()
}

/// Relies on `char::is_alphanumeric`, documented to hold exactly when
/// `is_alphabetic` or `is_numeric` does.
#[verifier::external_body]
fn is_alphanumeric_char(c: char) -> (r: bool)
    ensures
        r == (char_alpha(c) || char_numeric(c)),
{
    c.is_alphanumeric()
}

/// Decides the decimal-digit test on a character.
fn is_digit_char(c: char) -> (r: bool)
    ensures
        r == is_digit(c),
{
    let u = c as u32;
    48 <= u && u <= 57
}



/// Where whitespace skipping stops, and the line count when it does:
/// blanks and newlines are consumed (newlines counting, saturating),
/// a `//` comment runs to the line's end, and anything else stops the
/// skip. `in_comment` carries the state across a comment's characters.
pub open spec fn whitespace_end(src: Seq<char>, i: int, line: int, in_comment: bool) -> (int, int)
    decreases src.len() - i, (if in_comment { 2int } else { 1int }),
{
    if !(0 <= i < src.len()) {
        (i, line)
    } else if in_comment {
        if src[i] == '\n' {
            whitespace_end(src, i, line, false)
        } else {
            whitespace_end(src, i + 1, line, true)
        }
    } else {
        let c = src[i];
        if c == ' ' || c == '\r' || c == '\t' {
            whitespace_end(src, i + 1, line, false)
        } else if c == '\n' {
            whitespace_end(
                src,
                i + 1,
                if line < usize::MAX {
                    line + 1
                } else {
                    line
                },
                false,
            )
        } else if c == '/' && i + 1 < src.len() && src[i + 1] == '/' {
            whitespace_end(src, i + 2, line, true)
        } else {
            (i, line)
        }
    }
}

/// The line counter after reading `src[a..b]` starting at `line`: one
/// (saturating) bump per newline.
pub open spec fn line_count(src: Seq<char>, a: int, b: int, line: int) -> int
    decreases b - a,
{
    if b <= a || !(0 <= a && b <= src.len()) {
        line
    } else {
        let prev = line_count(src, a, b - 1, line);
        if src[b - 1] == '\n' && prev < usize::MAX {
            prev + 1
        } else {
            prev
        }
    }
}

/// Where the token scanned over `src[start..end]` must end (maximal
/// munch), decided like the dispatch: single-character tokens take one
/// character; the four operators take a second `=` exactly when one is
/// there; a number takes every digit and a fractional part whenever a
/// point-then-digit follows; an identifier takes every identifier
/// character; strings account for their extent separately.
pub open spec fn token_extent(src: Seq<char>, start: int, end: int) -> bool {
    let c = src[start];
    if c == '(' || c == ')' || c == '{' || c == '}' || c == ';' || c == ',' || c == '.' || c
        == '-' || c == '+' || c == '/' || c == '*' {
        end == start + 1
    } else if c == '!' || c == '=' || c == '<' || c == '>' {
        end == if start + 1 < src.len() && src[start + 1] == '=' {
            start + 2
        } else {
            start + 1
        }
    } else if is_digit(c) {
        &&& (end == src.len() || !is_digit(src[end]))
        &&& (all_digits(src.subrange(start, end)) ==> !(end + 1 < src.len() && src[end] == '.'
            && is_digit(src[end + 1])))
    } else if c == '"' {
        true
    } else if char_alpha(c) || c == '_' {
        end == src.len() || !(char_alpha(src[end]) || char_numeric(src[end]) || src[end] == '_')
    } else {
        end == start + 1
    }
}

/// Which kind the scanner's dispatch assigns to a token scanned over
/// `src[start..end]`: the priority order of the dispatch, decided by the
/// first character (two-character operators by whether a second character
/// was taken; a string may instead be an unterminated-string error).
pub open spec fn kind_matches(src: Seq<char>, start: int, end: int, k: TT) -> bool {
    let c = src[start];
    if c == '(' {
        k == TT::LeftParen
    } else if c == ')' {
        k == TT::RightParen
    } else if c == '{' {
        k == TT::LeftBracket
    } else if c == '}' {
        k == TT::RightBracket
    } else if c == ';' {
        k == TT::Semicolon
    } else if c == ',' {
        k == TT::Comma
    } else if c == '.' {
        k == TT::Dot
    } else if c == '-' {
        k == TT::Minus
    } else if c == '+' {
        k == TT::Plus
    } else if c == '/' {
        k == TT::Slash
    } else if c == '*' {
        k == TT::Star
    } else if c == '!' {
        k == if end == start + 2 {
            TT::BangEquals
        } else {
            TT::Bang
        }
    } else if c == '=' {
        k == if end == start + 2 {
            TT::Equals
        } else {
            TT::Assign
        }
    } else if c == '<' {
        k == if end == start + 2 {
            TT::LessEquals
        } else {
            TT::Less
        }
    } else if c == '>' {
        k == if end == start + 2 {
            TT::GreaterEquals
        } else {
            TT::Greater
        }
    } else if is_digit(c) {
        k == TT::Number
    } else if c == '"' {
        k == TT::Str || k == TT::Error
    } else if char_alpha(c) || c == '_' {
        k == keyword_token(src.subrange(start, end))
    } else {
        k == TT::Error
    }
}

/// Pulls tokens out of `source` one at a time; `start..current` is the
/// span of the token being scanned.
pub struct Scanner {
    pub source: Vec<char>,
    pub line: usize,
    pub start: usize,
    pub current: usize,
    pub length: usize,
    pub ac: AhoCorasick,
}

impl Scanner {
    /// Positions stay inside the source and the automaton holds the
    /// keyword set.
    pub open spec fn wf(self) -> bool {
        &&& self.length == self.source@.len()
        &&& self.start <= self.current <= self.length
        &&& automaton_patterns(self.ac) == keyword_seqs()
    }

    pub fn new(source: &str) -> (s: Scanner)
        ensures
            s.wf(),
            s.source@ == source@,
            s.line == 1,
            s.current == 0,
            s.start == 0,
    {
        let mut chars: Vec<char> = Vec::new();
        let mut it = source.chars();
        loop
            invariant
                IteratorSpec::obeys_prophetic_iter_laws(&it),
                source@ == chars@ + IteratorSpec::remaining(&it),
            ensures
                chars@ == source@,
            decreases source@.len() - chars@.len(),
        {
            match it.next() {
                Some(c) => {
                    chars.push(c);
                    proof {
                        assert(source@ =~= chars@
                            + IteratorSpec::remaining(&it));
                    }
                },
                None => {
                    proof {
                        assert(chars@ =~= source@);
                    }
                    break ;
                },
            }
        }
        let length = chars.len();
        Scanner { source: chars, line: 1, current: 0, start: 0, length, ac: keyword_automaton() }
    }

    fn is_at_end(&self) -> (r: bool)
        requires
            self.wf(),
        ensures
            r == (self.current == self.length),
    {
        self.current == self.length
    }

    /// Consumes and returns the next character.
    fn advance(&mut self) -> (c: char)
        requires
            old(self).wf(),
            old(self).current < old(self).length,
        ensures
            final(self).wf(),
            *final(self) == (Scanner { current: (old(self).current + 1) as usize, ..*old(self) }),
            c == old(self).source@[old(self).current as int],
    {
        self.current = self.current + 1;
        self.source[self.current - 1]
    }

    /// Consumes the next character when it is `expected`.
    fn matching(&mut self, expected: char) -> (r: bool)
        requires
            old(self).wf(),
        ensures
            final(self).wf(),
            r == (old(self).current < old(self).length
                && old(self).source@[old(self).current as int] == expected),
            r ==> *final(self) == (Scanner {
                current: (old(self).current + 1) as usize,
                ..*old(self)
            }),
            !r ==> *final(self) == *old(self),
    {
        if self.is_at_end() {
            return false;
        }
        if self.source[self.current] != expected {
            return false;
        }
        self.current = self.current + 1;
        true
    }

    /// The next character, or NUL at the end of the source.
    fn peek(&self) -> (c: char)
        requires
            self.wf(),
        ensures
            c == if self.current < self.length {
                self.source@[self.current as int]
            } else {
                '\0'
            },
    {
        if self.is_at_end() {
            '\0'
        } else {
            self.source[self.current]
        }
    }

    /// The character after the next one, when it exists.
    fn peek_next(&self) -> (c: Option<char>)
        requires
            self.wf(),
        ensures
            c == if self.current + 1 < self.length {
                Some(self.source@[self.current as int + 1])
            } else {
                Option::<char>::None
            },
    {
        if self.length - self.current > 1 {
            Some(self.source[self.current + 1])
        } else {
            None
        }
    }

    fn peek_is_alphanumeric(&self) -> (r: bool)
        requires
            self.wf(),
        ensures
            r == (self.current < self.length && (char_alpha(self.source@[self.current as int])
                || char_numeric(self.source@[self.current as int]) || self.source@[self.current as int]
                == '_')),
            r ==> self.current < self.length,
    {
        if self.is_at_end() {
            return false;
        }
        let c = self.peek();
        is_alphanumeric_char(c) || c == '_'
    }

    /// Consumes spaces, tabs, carriage returns, newlines (counting lines)
    /// and line comments.
    fn skip_whitespace(&mut self)
        requires
            old(self).wf(),
        ensures
            final(self).wf(),
            final(self).source@ == old(self).source@,
            final(self).length == old(self).length,
            final(self).ac == old(self).ac,
            final(self).start == old(self).start,
            old(self).current <= final(self).current,
            old(self).line <= final(self).line,
            (final(self).current as int, final(self).line as int) == whitespace_end(
                old(self).source@,
                old(self).current as int,
                old(self).line as int,
                false,
            ),
    {
        loop
            invariant
                self.wf(),
                self.source@ == old(self).source@,
                self.length == old(self).length,
                self.ac == old(self).ac,
                self.start == old(self).start,
                old(self).current <= self.current,
                old(self).line <= self.line,
                whitespace_end(old(self).source@, old(self).current as int, old(self).line as int, false)
                    == whitespace_end(self.source@, self.current as int, self.line as int, false),
            ensures
                self.wf(),
                self.source@ == old(self).source@,
                self.length == old(self).length,
                self.ac == old(self).ac,
                self.start == old(self).start,
                old(self).current <= self.current,
                old(self).line <= self.line,
                (self.current as int, self.line as int) == whitespace_end(
                    old(self).source@,
                    old(self).current as int,
                    old(self).line as int,
                    false,
                ),
            decreases old(self).length - self.current,
        {
            let c = self.peek();
            if self.is_at_end() {
                return ;
            }
            if c == ' ' || c == '\r' || c == '\t' {
                let _ = self.advance();
            } else if c == '\n' {
                if self.line < usize::MAX {
                    self.line = self.line + 1;
                }
                let _ = self.advance();
            } else if c == '/' {
                if let Some(n) = self.peek_next() {
                    if n == '/' {
                        let ghost before_comment = self.current;
                        let _ = self.advance();
                        let _ = self.advance();
                        while self.peek() != '\n' && !self.is_at_end()
                            invariant
                                before_comment + 2 <= self.current,
                                self.wf(),
                                self.source@ == old(self).source@,
                                self.length == old(self).length,
                                self.ac == old(self).ac,
                                self.start == old(self).start,
                                old(self).current <= self.current,
                                old(self).line <= self.line,
                                whitespace_end(
                                    old(self).source@,
                                    old(self).current as int,
                                    old(self).line as int,
                                    false,
                                ) == whitespace_end(
                                    self.source@,
                                    self.current as int,
                                    self.line as int,
                                    true,
                                ),
                            ensures
                                self.wf(),
                                self.source@ == old(self).source@,
                                self.length == old(self).length,
                                self.ac == old(self).ac,
                                self.start == old(self).start,
                                old(self).current <= self.current,
                                old(self).line <= self.line,
                                whitespace_end(
                                    old(self).source@,
                                    old(self).current as int,
                                    old(self).line as int,
                                    false,
                                ) == whitespace_end(
                                    self.source@,
                                    self.current as int,
                                    self.line as int,
                                    true,
                                ),
                                self.current == self.length || self.source@[self.current as int]
                                    == '\n',
                                before_comment + 2 <= self.current,
                            decreases old(self).length - self.current,
                        {
                            let _ = self.advance();
                        }
                        if self.is_at_end() {
                            return ;
                        }
                    } else {
                        return ;
                    }
                } else {
                    return ;
                }
            } else {
                return ;
            }
        }
    }

    /// Builds the token for the span `start..current`, attaching the
    /// literal payload that number, string and constant tokens carry.
    fn make_token(&self, ttype: TT) -> (t: Token)
        requires
            self.wf(),
            ttype == TT::Number ==> is_number_lexeme(
                self.source@.subrange(self.start as int, self.current as int),
            ),
            ttype == TT::Str ==> self.start + 2 <= self.current,
            ttype == TT::Constant ==> {
                ||| self.source@.subrange(self.start as int, self.current as int) == "nil"@
                ||| self.source@.subrange(self.start as int, self.current as int) == "true"@
                ||| self.source@.subrange(self.start as int, self.current as int) == "false"@
            },
        ensures
            t.ttype == ttype,
            t.line == self.line,
            t.lexeme@ == self.source@.subrange(self.start as int, self.current as int),
            ttype == TT::Number ==> (t.literal matches Some(l) && l matches Literal::Number(b)
                && b == num::bits_of_text(t.lexeme@)),
            ttype == TT::Str ==> (t.literal matches Some(l) && l matches Literal::Str(s) && s@
                == t.lexeme@.subrange(1, t.lexeme@.len() - 1)),
            ttype == TT::Constant ==> (t.literal matches Some(l) && {
                ||| t.lexeme@ == "nil"@ && l is Nil
                ||| (t.lexeme@ == "true"@ && (l matches Literal::Boolean(b) && b == true))
                ||| (t.lexeme@ == "false"@ && (l matches Literal::Boolean(b) && b == false))
            }),
    {
        let lexeme = chars_to_string(&self.source, self.start, self.current);
        let mut literal: Option<Literal> = None;
        match ttype {
            TT::Number => {
                let bits = num::parse_number(lexeme.as_str());
                literal = Some(Literal::Number(bits));
            },
            TT::Str => {
                let inner = chars_to_string(&self.source, self.start + 1, self.current - 1);
                proof {
                    assert(inner@ =~= lexeme@.subrange(1, lexeme@.len() - 1));
                }
                literal = Some(Literal::Str(inner));
            },
            TT::Constant => {
                proof {
                    reveal_strlit("nil");
                    reveal_strlit("true");
                    reveal_strlit("false");
                }
                if lexeme == String::from_str("nil") {
                    literal = Some(Literal::Nil);
                } else if lexeme == String::from_str("true") {
                    literal = Some(Literal::Boolean(true));
                } else {
                    literal = Some(Literal::Boolean(false));
                }
            },
            _ => {},
        }
        Token { ttype, line: self.line, lexeme, literal }
    }

    fn error_token(&self, message: &str) -> (t: Token)
        ensures
            t.ttype == TT::Error,
            t.line == self.line,
            t.lexeme@ == message@,
    {
        Token::new(TT::Error, self.line, String::from_str(message))
    }

    /// Scans past the remaining digits of a number, and past a fractional
    /// part when a point followed by a digit comes next.
    fn number(&mut self) -> (t: Token)
        requires
            old(self).wf(),
            old(self).current == old(self).start + 1,
            old(self).current <= old(self).length,
            is_digit(old(self).source@[old(self).start as int]),
        ensures
            final(self).wf(),
            final(self).source@ == old(self).source@,
            final(self).length == old(self).length,
            final(self).ac == old(self).ac,
            final(self).start == old(self).start,
            final(self).line == old(self).line,
            old(self).current <= final(self).current,
            t.ttype == TT::Number,
            t.line == final(self).line,
            t.lexeme@ == final(self).source@.subrange(
                final(self).start as int,
                final(self).current as int,
            ),
            t.literal matches Some(l) && l matches Literal::Number(b) && b == num::bits_of_text(
                t.lexeme@,
            ),
            // maximal munch: no digit follows, and an unbroken digit run is
            // never left before a point-then-digit
            final(self).current == final(self).length || !is_digit(
                final(self).source@[final(self).current as int],
            ),
            all_digits(t.lexeme@) ==> !(final(self).current + 1 < final(self).length && final(self).source@[final(self).current as int] == '.' && is_digit(
                final(self).source@[final(self).current as int + 1],
            )),
    {
        while self.peek_digit()
            invariant
                self.wf(),
                self.source@ == old(self).source@,
                self.length == old(self).length,
                self.ac == old(self).ac,
                self.start == old(self).start,
                self.line == old(self).line,
                old(self).current <= self.current,
                self.start < self.current,
                all_digits(self.source@.subrange(self.start as int, self.current as int)),
            decreases self.length - self.current,
        {
            proof {
                assert(self.source@.subrange(self.start as int, self.current as int + 1)
                    =~= self.source@.subrange(self.start as int, self.current as int).push(
                    self.source@[self.current as int],
                ));
            }
            let _ = self.advance();
        }
        let ghost whole = self.source@.subrange(self.start as int, self.current as int);
        let mut fraction = false;
        if self.peek() == '.' {
            if let Some(n) = self.peek_next() {
                if is_digit_char(n) {
                    fraction = true;
                }
            }
        }
        if fraction {
            let ghost dot = self.current as int;
            let _ = self.advance();
            while self.peek_digit()
                invariant
                    self.wf(),
                    self.source@ == old(self).source@,
                    self.length == old(self).length,
                    self.ac == old(self).ac,
                    self.start == old(self).start,
                    self.line == old(self).line,
                    old(self).current <= self.current,
                    self.start < dot < self.current <= self.length,
                    self.source@[dot] == '.',
                    all_digits(self.source@.subrange(self.start as int, dot)),
                    dot + 1 < self.current ==> all_digits(
                        self.source@.subrange(dot + 1, self.current as int),
                    ),
                decreases self.length - self.current,
            {
                proof {
                    if dot + 1 < self.current {
                        assert(self.source@.subrange(dot + 1, self.current as int + 1)
                            =~= self.source@.subrange(dot + 1, self.current as int).push(
                            self.source@[self.current as int],
                        ));
                    } else {
                        assert(self.source@.subrange(dot + 1, self.current as int + 1) =~= seq![
                            self.source@[self.current as int],
                        ]);
                    }
                }
                let _ = self.advance();
            }
            proof {
                let s = self.source@.subrange(self.start as int, self.current as int);
                let k = dot - self.start;
                assert(s.subrange(0, k) =~= self.source@.subrange(self.start as int, dot));
                assert(s.subrange(k + 1, s.len() as int) =~= self.source@.subrange(
                    dot + 1,
                    self.current as int,
                ));
                assert(s[k] == '.');
                assert(dot + 1 < self.current);
                assert(is_number_lexeme(s));
                assert(!all_digits(s)) by {
                    assert(!is_digit(s[k]));
                }
            }
        }
        self.make_token(TT::Number)
    }

    fn peek_digit(&self) -> (r: bool)
        requires
            self.wf(),
        ensures
            r == (self.current < self.length && is_digit(self.source@[self.current as int])),
            r ==> self.current < self.length,
    {
        let c = self.peek();
        proof {
            assert('\0' as u32 == 0);
        }
        is_digit_char(c)
    }

    /// Scans to the closing quote of a string literal.
    fn string(&mut self) -> (t: Token)
        requires
            old(self).wf(),
            old(self).current == old(self).start + 1,
        ensures
            final(self).wf(),
            final(self).source@ == old(self).source@,
            final(self).length == old(self).length,
            final(self).ac == old(self).ac,
            final(self).start == old(self).start,
            old(self).current <= final(self).current,
            old(self).line <= final(self).line,
            t.line == final(self).line,
            t.ttype == TT::Str || t.ttype == TT::Error,
            t.ttype == TT::Str ==> {
                &&& t.lexeme@ == final(self).source@.subrange(
                    final(self).start as int,
                    final(self).current as int,
                )
                &&& (t.literal matches Some(l) && l matches Literal::Str(s) && s@
                    == t.lexeme@.subrange(1, t.lexeme@.len() - 1))
            },
            // a terminated string ends at the first closing quote ...
            t.ttype == TT::Str ==> final(self).current >= final(self).start + 2 && final(self).source@[final(self).current - 1] == '"' && (forall|k: int|
                final(self).start < k < final(self).current - 1 ==> final(self).source@[k] != '"'),
            // ... and only a quote-free tail is unterminated
            t.ttype == TT::Error ==> final(self).current == final(self).length && (forall|k: int|
                final(self).start < k < final(self).length ==> final(self).source@[k] != '"'),
            // the line counter advances by exactly the newlines of the body
            final(self).line as int == line_count(
                final(self).source@,
                old(self).current as int,
                final(self).current as int,
                old(self).line as int,
            ),
    {
        while self.peek() != '"' && !self.is_at_end()
            invariant
                self.wf(),
                self.source@ == old(self).source@,
                self.length == old(self).length,
                self.ac == old(self).ac,
                self.start == old(self).start,
                old(self).current <= self.current,
                old(self).line <= self.line,
                self.start < self.current,
                forall|k: int| old(self).current <= k < self.current ==> self.source@[k] != '"',
                self.line as int == line_count(
                    self.source@,
                    old(self).current as int,
                    self.current as int,
                    old(self).line as int,
                ),
            decreases self.length - self.current,
        {
            if self.peek() == '\n' {
                if self.line < usize::MAX {
                    self.line = self.line + 1;
                }
            }
            let _ = self.advance();
        }
        if self.is_at_end() {
            self.error_token("Unterminated string")
        } else {
            let _ = self.advance();
            self.make_token(TT::Str)
        }
    }

    /// Scans past the rest of an identifier and classifies it.
    fn identifier(&mut self) -> (t: Token)
        requires
            old(self).wf(),
            old(self).start < old(self).current,
        ensures
            final(self).wf(),
            final(self).source@ == old(self).source@,
            final(self).length == old(self).length,
            final(self).ac == old(self).ac,
            final(self).start == old(self).start,
            final(self).line == old(self).line,
            old(self).current <= final(self).current,
            t.line == final(self).line,
            t.lexeme@ == final(self).source@.subrange(
                final(self).start as int,
                final(self).current as int,
            ),
            t.ttype == keyword_token(t.lexeme@),
            // maximal munch: no identifier character follows
            final(self).current == final(self).length || !(char_alpha(
                final(self).source@[final(self).current as int],
            ) || char_numeric(final(self).source@[final(self).current as int]) || final(self).source@[final(self).current as int] == '_'),
            // the three constant keywords carry their payloads
            t.ttype == TT::Constant ==> (t.literal matches Some(l) && {
                ||| t.lexeme@ == "nil"@ && l is Nil
                ||| (t.lexeme@ == "true"@ && (l matches Literal::Boolean(b) && b == true))
                ||| (t.lexeme@ == "false"@ && (l matches Literal::Boolean(b) && b == false))
            }),
    {
        while self.peek_is_alphanumeric()
            invariant
                self.wf(),
                self.source@ == old(self).source@,
                self.length == old(self).length,
                self.ac == old(self).ac,
                self.start == old(self).start,
                self.line == old(self).line,
                old(self).current <= self.current,
                self.start < self.current,
            decreases self.length - self.current,
        {
            let _ = self.advance();
        }
        let ttype = self.identifier_type();
        self.make_token(ttype)
    }

    /// Classifies the identifier lexeme `start..current`: a keyword kind on
    /// an exact keyword, a plain identifier otherwise. The automaton rules
    /// out most lexemes with one search.
    fn identifier_type(&self) -> (r: TT)
        requires
            self.wf(),
        ensures
            r == keyword_token(self.source@.subrange(self.start as int, self.current as int)),
    {
        let haystack = chars_to_string(&self.source, self.start, self.current);
        let ghost lex = self.source@.subrange(self.start as int, self.current as int);
        let found = automaton_is_match(&self.ac, haystack.as_str());
        if !found {
            proof {
                lemma_occurs_refl(lex);
                assert forall|k: int|
                    0 <= k < keyword_seqs().len() implies !(lex == keyword_seqs()[k]) by {
                    if lex == keyword_seqs()[k] {
                        assert(occurs_in(keyword_seqs()[k], lex));
                    }
                }
                assert(keyword_seqs()[0] == "and"@);
                assert(keyword_seqs()[1] == "class"@);
                assert(keyword_seqs()[2] == "else"@);
                assert(keyword_seqs()[3] == "false"@);
                assert(keyword_seqs()[4] == "for"@);
                assert(keyword_seqs()[5] == "fun"@);
                assert(keyword_seqs()[6] == "if"@);
                assert(keyword_seqs()[7] == "nil"@);
                assert(keyword_seqs()[8] == "or"@);
                assert(keyword_seqs()[9] == "print"@);
                assert(keyword_seqs()[10] == "return"@);
                assert(keyword_seqs()[11] == "super"@);
                assert(keyword_seqs()[12] == "this"@);
                assert(keyword_seqs()[13] == "true"@);
                assert(keyword_seqs()[14] == "var"@);
                assert(keyword_seqs()[15] == "while"@);
            }
            return TT::Identifier;
        }
        if haystack == String::from_str("and") {
            TT::And
        } else if haystack == String::from_str("false") {
            TT::Constant
        } else if haystack == String::from_str("true") {
            TT::Constant
        } else if haystack == String::from_str("nil") {
            TT::Constant
        } else if haystack == String::from_str("while") {
            TT::While
        } else if haystack == String::from_str("for") {
            TT::For
        } else if haystack == String::from_str("fun") {
            TT::Fun
        } else if haystack == String::from_str("class") {
            TT::Class
        } else if haystack == String::from_str("super") {
            TT::Super
        } else if haystack == String::from_str("this") {
            TT::This
        } else if haystack == String::from_str("or") {
            TT::Or
        } else if haystack == String::from_str("else") {
            TT::Else
        } else if haystack == String::from_str("print") {
            TT::Print
        } else if haystack == String::from_str("return") {
            TT::Return
        } else if haystack == String::from_str("var") {
            TT::Var
        } else if haystack == String::from_str("if") {
            TT::If
        } else {
            TT::Identifier
        }
    }

    /// Scans and returns the next token. At the end of the source it
    /// yields end-of-file tokens indefinitely; malformed text becomes an
    /// error token whose lexeme is the message.
    pub fn scan_token(&mut self) -> (t: Token)
        requires
            old(self).wf(),
        ensures
            final(self).wf(),
            final(self).source@ == old(self).source@,
            final(self).length == old(self).length,
            final(self).ac == old(self).ac,
            old(self).current <= final(self).current,
            old(self).line <= final(self).line,
            t.line == final(self).line,
            t.ttype != TT::EndOfFile ==> old(self).current < final(self).current,
            // the scanned span: past skipped whitespace, delimiting the token
            old(self).current <= final(self).start <= final(self).current,
            final(self).start as int == whitespace_end(
                old(self).source@,
                old(self).current as int,
                old(self).line as int,
                false,
            ).0,
            t.ttype != TT::Str && t.ttype != TT::Error ==> final(self).line as int
                == whitespace_end(
                old(self).source@,
                old(self).current as int,
                old(self).line as int,
                false,
            ).1,
            t.ttype == TT::EndOfFile <==> final(self).start == final(self).length,
            t.ttype != TT::EndOfFile ==> final(self).start < final(self).current && kind_matches(
                final(self).source@,
                final(self).start as int,
                final(self).current as int,
                t.ttype,
            ),
            t.ttype != TT::Error ==> t.lexeme@ == final(self).source@.subrange(
                final(self).start as int,
                final(self).current as int,
            ),
            // maximal munch: the token could not have been longer
            t.ttype != TT::EndOfFile ==> token_extent(
                final(self).source@,
                final(self).start as int,
                final(self).current as int,
            ),
            // a string token ends at the first closing quote of its body
            t.ttype == TT::Str ==> final(self).current >= final(self).start + 2 && final(self).source@[final(self).current - 1] == '"' && (forall|k: int|
                final(self).start < k < final(self).current - 1 ==> final(self).source@[k] != '"'),
            // an opening quote yields an error exactly when no quote closes it
            t.ttype == TT::Error && final(self).start < final(self).length && final(self).source@[final(self).start as int] == '"' ==> final(self).current == final(self).length && (forall|k: int|
                final(self).start < k < final(self).length ==> final(self).source@[k] != '"'),
            // the constant keywords carry their payloads
            t.ttype == TT::Constant ==> (t.literal matches Some(l) && {
                ||| t.lexeme@ == "nil"@ && l is Nil
                ||| (t.lexeme@ == "true"@ && (l matches Literal::Boolean(b) && b == true))
                ||| (t.lexeme@ == "false"@ && (l matches Literal::Boolean(b) && b == false))
            }),
            // line counting: newlines inside a string body count exactly
            t.ttype == TT::Str || (t.ttype == TT::Error && final(self).start < final(self).length
                && final(self).source@[final(self).start as int] == '"') ==> final(self).line as int
                == line_count(
                final(self).source@,
                final(self).start as int + 1,
                final(self).current as int,
                whitespace_end(
                    old(self).source@,
                    old(self).current as int,
                    old(self).line as int,
                    false,
                ).1,
            ),
            t.ttype == TT::Error && (final(self).start >= final(self).length || final(self).source@[final(self).start as int] != '"') ==> final(self).line as int
                == whitespace_end(
                old(self).source@,
                old(self).current as int,
                old(self).line as int,
                false,
            ).1,
            t.ttype == TT::Number ==> (t.literal matches Some(l) && l matches Literal::Number(b)
                && b == num::bits_of_text(t.lexeme@)),
            t.ttype == TT::Str ==> (t.literal matches Some(l) && l matches Literal::Str(s) && s@
                == t.lexeme@.subrange(1, t.lexeme@.len() - 1)),
            t.ttype == TT::Identifier ==> keyword_token(t.lexeme@) == TT::Identifier,
    {
        self.skip_whitespace();
        self.start = self.current;

        if self.is_at_end() {
            return self.make_token(TT::EndOfFile);
        }
        let c = self.advance();
        if c == '(' {
            self.make_token(TT::LeftParen)
        } else if c == ')' {
            self.make_token(TT::RightParen)
        } else if c == '{' {
            self.make_token(TT::LeftBracket)
        } else if c == '}' {
            self.make_token(TT::RightBracket)
        } else if c == ';' {
            self.make_token(TT::Semicolon)
        } else if c == ',' {
            self.make_token(TT::Comma)
        } else if c == '.' {
            self.make_token(TT::Dot)
        } else if c == '-' {
            self.make_token(TT::Minus)
        } else if c == '+' {
            self.make_token(TT::Plus)
        } else if c == '/' {
            self.make_token(TT::Slash)
        } else if c == '*' {
            self.make_token(TT::Star)
        } else if c == '!' {
            let eq = self.matching('=');
            self.make_token(if eq { TT::BangEquals } else { TT::Bang })
        } else if c == '=' {
            let eq = self.matching('=');
            self.make_token(if eq { TT::Equals } else { TT::Assign })
        } else if c == '<' {
            let eq = self.matching('=');
            self.make_token(if eq { TT::LessEquals } else { TT::Less })
        } else if c == '>' {
            let eq = self.matching('=');
            self.make_token(if eq { TT::GreaterEquals } else { TT::Greater })
        } else if is_digit_char(c) {
            self.number()
        } else if c == '"' {
            self.string()
        } else if is_alphabetic_char(c) || c == '_' {
            self.identifier()
        } else {
            self.error_token("Unexpected token")
        }
    }
}

} // verus!
