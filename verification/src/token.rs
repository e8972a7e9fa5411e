//! The token model: button operations, the tokens of the input log, their
//! rendering to text, and the well-formedness of numeric buffers.

use vstd::prelude::*;

verus! {

/// The nine operation buttons of the calculator.
#[derive(Clone, Copy, Debug, PartialEq, Eq, Structural)]
pub enum Operation {
    AC,
    SignChange,
    Percent,
    Divide,
    Multiply,
    Subtract,
    Sum,
    Equals,
    Dot,
}

impl Operation {
    /// The fixed display symbol of this operation.
    pub open spec fn symbol(self) -> Seq<char> {
        match self {
            Operation::AC => seq!['A', 'C'],
            Operation::SignChange => seq!['-'],
            Operation::Percent => seq!['%'],
            Operation::Divide => seq!['\u{00F7}'],
            Operation::Multiply => seq!['*'],
            Operation::Subtract => seq!['-'],
            Operation::Sum => seq!['+'],
            Operation::Equals => seq!['='],
            Operation::Dot => seq!['.'],
        }
    }

    /// Whether this operation is one of the four arithmetic operators
    /// that the evaluator consumes.
    pub open spec fn is_arithmetic(self) -> bool {
        ||| self == Operation::Divide
        ||| self == Operation::Multiply
        ||| self == Operation::Subtract
        ||| self == Operation::Sum
    }

    /// Whether this operation is one of the four arithmetic operators.
    pub fn arithmetic(&self) -> (b: bool)
        ensures
            b == self.is_arithmetic(),
    {
        matches!(self, Operation::Divide | Operation::Multiply | Operation::Subtract | Operation::Sum)
    }

    /// The display symbol, as a string slice.
    pub fn to_str(&self) -> (r: &'static str)
        ensures
            r@ == self.symbol(),
    {
        proof {
            reveal_strlit("AC");
            reveal_strlit("-");
            reveal_strlit("%");
            reveal_strlit("\u{00F7}");
            reveal_strlit("*");
            reveal_strlit("+");
            reveal_strlit("=");
            reveal_strlit(".");
        }
        let r = match self {
            Operation::AC => "AC",
            Operation::SignChange => "-",
            Operation::Percent => "%",
            Operation::Divide => "\u{00F7}",
            Operation::Multiply => "*",
            Operation::Subtract => "-",
            Operation::Sum => "+",
            Operation::Equals => "=",
            Operation::Dot => ".",
        };
        assert(r@ =~= self.symbol());
        r
    }

    /// The display symbol, as an owned string.
    pub fn to_string(&self) -> (r: String)
        ensures
            r@ == self.symbol(),
    {
        self.to_str().to_owned()
    }
}

/// One entry of the input log.
#[derive(Debug)]
pub enum Token {
    /// A pending operator or control event.
    Operation(Operation),
    /// An in-progress or finalized digit buffer.
    Number(Vec<char>),
    /// A digit buffer that has been marked as a percentage.
    Percentage(Vec<char>),
    /// A finalized computed value rendered as text; never mutated.
    Result(Vec<char>),
}

/// The mathematical shape of a token: the same four variants over
/// sequences of characters.
#[verifier::ext_equal]
pub enum TokenV {
    Operation(Operation),
    Number(Seq<char>),
    Percentage(Seq<char>),
    Result(Seq<char>),
}

impl View for Token {
    type V = TokenV;

    open spec fn view(&self) -> TokenV {
        match self {
            Token::Operation(op) => TokenV::Operation(*op),
            Token::Number(n) => TokenV::Number(n@),
            Token::Percentage(n) => TokenV::Percentage(n@),
            Token::Result(n) => TokenV::Result(n@),
        }
    }
}

/// Whether the token carries a numeric buffer (a number or a percentage).
pub open spec fn is_numeric(t: TokenV) -> bool {
    t is Number || t is Percentage
}

/// The text carried by a number, percentage or result token.
pub open spec fn buffer_of(t: TokenV) -> Seq<char> {
    match t {
        TokenV::Operation(_) => Seq::empty(),
        TokenV::Number(n) => n,
        TokenV::Percentage(n) => n,
        TokenV::Result(n) => n,
    }
}

/// A decimal digit character.
pub open spec fn is_digit(c: char) -> bool {
    ||| c == '0'
    ||| c == '1'
    ||| c == '2'
    ||| c == '3'
    ||| c == '4'
    ||| c == '5'
    ||| c == '6'
    ||| c == '7'
    ||| c == '8'
    ||| c == '9'
}

/// A well-formed numeric buffer: an optional leading '-', then digits and
/// at most one dot, with at least one digit somewhere. Such a buffer
/// always reads as a number.
pub open spec fn wf_buffer(s: Seq<char>) -> bool {
    &&& s.len() > 0
    &&& (s[0] == '-' ==> s.len() >= 2)
    &&& (forall|i: int|
        0 <= i < s.len() ==> is_digit(#[trigger] s[i]) || s[i] == '.' || (i == 0 && s[i] == '-'))
    &&& (forall|i: int, j: int|
        0 <= i < s.len() && 0 <= j < s.len() && #[trigger] s[i] == '.' && #[trigger] s[j] == '.'
            ==> i == j)
    &&& (exists|i: int| 0 <= i < s.len() && is_digit(#[trigger] s[i]))
}

/// A well-formed token: operation tokens in the log are arithmetic
/// operators or the equals event, and numeric buffers are well formed.
/// Result text is opaque and carries no constraint.
pub open spec fn wf_token(t: TokenV) -> bool {
    match t {
        TokenV::Operation(op) => op.is_arithmetic() || op == Operation::Equals,
        TokenV::Number(n) => wf_buffer(n),
        TokenV::Percentage(n) => wf_buffer(n),
        TokenV::Result(_) => true,
    }
}

/// The rendering of one token: the operation's symbol, the raw text of a
/// number or result, or the text of a percentage followed by '%'.
pub open spec fn token_text(t: TokenV) -> Seq<char> {
    match t {
        TokenV::Operation(op) => op.symbol(),
        TokenV::Number(n) => n,
        TokenV::Percentage(n) => n + seq!['%'],
        TokenV::Result(n) => n,
    }
}

impl Token {
    /// The characters this token renders to.
    pub fn to_chars(&self) -> (r: Vec<char>)
        ensures
            r@ == token_text(self@),
    {
        match self {
            Token::Operation(op) => crate::text::chars_of_str(op.to_str()),
            Token::Number(n) => n.clone(),
            Token::Result(n) => n.clone(),
            Token::Percentage(n) => {
                let mut r = n.clone();
                r.push('%');
                r
            },
        }
    }

    /// The rendering of this token as an owned string.
    pub fn to_string(&self) -> (r: String)
        ensures
            r@ == token_text(self@),
    {
        let chars = self.to_chars();
        crate::text::string_of_chars(&chars)
    }
}

} // verus!
