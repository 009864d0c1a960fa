//! A small experiment in tokenizing with parser combinators: it recognizes
//! a leading plus operator and closes the stream with an end-of-file
//! token. The scanner module is the real tokenizer of the language.
use crate::token::{Token, TT};
use crate::vm::InterpretResult;
use vstd::prelude::*;

verus! {

/// Relies on `nom::bytes::complete::tag("+")`: succeeds exactly when the
/// input starts with a plus, handing back the rest of the input.
#[verifier::external_body]
fn take_plus(input: &str) -> (r: Option<String>)
    ensures
        (r is Some) == (input@.len() >= 1 && input@[0] == '+'),
        r matches Some(rest) ==> rest@ == input@.skip(1),
{
    let parsed: nom::IResult<&str, &str> = nom::bytes::complete::tag("+")(input);
    match parsed {
        Ok((rest, _)) => Some(rest.to_string()),
        Err(_) => None,
    }
}

/// Tokenizes with combinators; `source` must start with the one operator
/// the experiment knows.
pub struct Tokenizer {
    pub source: String,
    pub line: usize,
}

impl Tokenizer {
    pub fn new(source: &str) -> (t: Self)
        ensures
            t.source@ == source@,
            t.line == 1,
    {
        Self { source: String::from_str(source), line: 1 }
    }

    /// Recognizes a plus operator at the front of the source and returns
    /// it with the closing end-of-file token, or reports that the source
    /// starts with something else.
    pub fn tokenize(&self) -> (r: Result<Vec<Token>, InterpretResult>)
        ensures
            r is Ok <==> self.source@.len() >= 1 && self.source@[0] == '+',
            r matches Ok(tokens) ==> {
                &&& tokens@.len() == 2
                &&& tokens@[0].ttype == TT::Plus
                &&& tokens@[0].line == self.line
                &&& tokens@[0].lexeme@ == "+"@
                &&& tokens@[0].literal is None
                &&& tokens@[1].ttype == TT::EndOfFile
                &&& tokens@[1].line == self.line
                &&& tokens@[1].lexeme@ == Seq::<char>::empty()
                &&& tokens@[1].literal is None
            },
    {
        match take_plus(self.source.as_str()) {
            Some(_) => {
                let mut tokens: Vec<Token> = Vec::new();
                proof {
                    reveal_strlit("+");
                }
                tokens.push(Token::new(TT::Plus, self.line, String::from_str("+")));
                tokens.push(Token::new(TT::EndOfFile, self.line, String::new()));
                Ok(tokens)
            },
            None => Err(InterpretResult::CompilerError),
        }
    }
}

} // verus!
