//! The input state machine: one button press at a time mutates the token
//! log. The spec function [`step`] is the full transition relation; the
//! exec methods of [`Calculator`] are proved to implement it.

use vstd::prelude::*;

use crate::token::{
    buffer_of, is_digit, is_numeric, token_text, wf_buffer, wf_token, Operation, Token, TokenV,
};

verus! {

/// A button press: one of the nine operations, or a digit 0 through 9.
#[derive(Clone, Copy, Debug, PartialEq, Eq, Structural)]
pub enum Message {
    OperationButton(Operation),
    NumberButton(u8),
}

/// The character a digit button enters into a buffer.
pub open spec fn digit_char(d: u8) -> char {
    if d == 0 {
        '0'
    } else if d == 1 {
        '1'
    } else if d == 2 {
        '2'
    } else if d == 3 {
        '3'
    } else if d == 4 {
        '4'
    } else if d == 5 {
        '5'
    } else if d == 6 {
        '6'
    } else if d == 7 {
        '7'
    } else if d == 8 {
        '8'
    } else {
        '9'
    }
}

/// The index of the last token satisfying `p`, or -1 when none does.
pub open spec fn last_matching_index(ts: Seq<TokenV>, p: spec_fn(TokenV) -> bool) -> int
    decreases ts.len(),
{
    if ts.len() == 0 {
        -1
    } else if p(ts.last()) {
        ts.len() - 1
    } else {
        last_matching_index(ts.drop_last(), p)
    }
}

/// What `last_matching_index` returns: the last matching index, or -1
/// when no token matches.
pub proof fn lemma_last_matching_index(ts: Seq<TokenV>, p: spec_fn(TokenV) -> bool)
    ensures
        -1 <= last_matching_index(ts, p) < ts.len(),
        last_matching_index(ts, p) == -1 ==> (forall|i: int| 0 <= i < ts.len() ==> !p(ts[i])),
        last_matching_index(ts, p) >= 0 ==> {
            let k = last_matching_index(ts, p);
            &&& k < ts.len()
            &&& p(ts[k])
            &&& forall|i: int| k < i < ts.len() ==> !p(ts[i])
        },
    decreases ts.len(),
{
    if ts.len() > 0 && !p(ts.last()) {
        lemma_last_matching_index(ts.drop_last(), p);
        assert(forall|i: int| 0 <= i < ts.len() - 1 ==> ts.drop_last()[i] == ts[i]);
    }
}

/// An index that matches and is followed by no match is the one
/// `last_matching_index` returns.
pub proof fn lemma_last_matching_index_is(ts: Seq<TokenV>, p: spec_fn(TokenV) -> bool, k: int)
    requires
        0 <= k < ts.len(),
        p(ts[k]),
        forall|i: int| k < i < ts.len() ==> !p(ts[i]),
    ensures
        last_matching_index(ts, p) == k,
    decreases ts.len(),
{
    if k < ts.len() - 1 {
        assert(forall|i: int| 0 <= i < ts.len() - 1 ==> ts.drop_last()[i] == ts[i]);
        lemma_last_matching_index_is(ts.drop_last(), p, k);
    }
}

/// The buffer with its leading minus stripped when present, else with a
/// minus put in front.
pub open spec fn toggle_sign(s: Seq<char>) -> Seq<char> {
    if s.len() > 0 && s[0] == '-' {
        s.drop_first()
    } else {
        seq!['-'] + s
    }
}

/// Digit press: append to a tail number buffer, else open a new one.
pub open spec fn digit_step(ts: Seq<TokenV>, c: char) -> Seq<TokenV> {
    if ts.len() > 0 && ts.last() is Number {
        ts.update(ts.len() - 1, TokenV::Number(buffer_of(ts.last()).push(c)))
    } else {
        ts.push(TokenV::Number(seq![c]))
    }
}

/// Sign change: toggle the leading minus of the last numeric token,
/// keeping its variant; a no-op when no numeric token exists.
pub open spec fn sign_change_step(ts: Seq<TokenV>) -> Seq<TokenV> {
    let k = last_matching_index(ts, |t: TokenV| is_numeric(t));
    if k >= 0 {
        let toggled = toggle_sign(buffer_of(ts[k]));
        let replacement = if ts[k] is Number {
            TokenV::Number(toggled)
        } else {
            TokenV::Percentage(toggled)
        };
        ts.update(k, replacement)
    } else {
        ts
    }
}

/// Percent: convert a tail number token in place to a percentage carrying
/// the same text; a no-op otherwise.
pub open spec fn percent_step(ts: Seq<TokenV>) -> Seq<TokenV> {
    if ts.len() > 0 && ts.last() is Number {
        ts.update(ts.len() - 1, TokenV::Percentage(buffer_of(ts.last())))
    } else {
        ts
    }
}

/// Whether the number token nearest the tail already carries a dot.
pub open spec fn last_number_has_dot(ts: Seq<TokenV>) -> bool {
    let k = last_matching_index(ts, |t: TokenV| t is Number);
    k >= 0 && buffer_of(ts[k]).contains('.')
}

/// Dot press: ignored when the nearest number buffer already has a dot;
/// else appended to a tail number buffer, or a fresh "0." buffer is opened.
pub open spec fn dot_step(ts: Seq<TokenV>) -> Seq<TokenV> {
    if last_number_has_dot(ts) {
        ts
    } else if ts.len() > 0 && ts.last() is Number {
        ts.update(ts.len() - 1, TokenV::Number(buffer_of(ts.last()).push('.')))
    } else {
        ts.push(TokenV::Number(seq!['0', '.']))
    }
}

/// Arithmetic operator press: ignored when an arithmetic operator already
/// sits at the tail (the first press of a run sticks), else pushed.
pub open spec fn operator_step(ts: Seq<TokenV>, op: Operation) -> Seq<TokenV> {
    if ts.len() > 0 && (ts.last() matches TokenV::Operation(tail_op) && tail_op.is_arithmetic()) {
        ts
    } else {
        ts.push(TokenV::Operation(op))
    }
}

/// The full transition relation of the state machine: the token log after
/// one button press. An equals press additionally triggers evaluation,
/// which appends a result token separately.
pub open spec fn step(ts: Seq<TokenV>, message: Message) -> Seq<TokenV> {
    match message {
        Message::NumberButton(d) => digit_step(ts, digit_char(d)),
        Message::OperationButton(op) => match op {
            Operation::AC => Seq::empty(),
            Operation::SignChange => sign_change_step(ts),
            Operation::Percent => percent_step(ts),
            Operation::Equals => ts.push(TokenV::Operation(Operation::Equals)),
            Operation::Dot => dot_step(ts),
            Operation::Divide => operator_step(ts, op),
            Operation::Multiply => operator_step(ts, op),
            Operation::Subtract => operator_step(ts, op),
            Operation::Sum => operator_step(ts, op),
        },
    }
}

/// Every token of the log is well formed.
pub open spec fn wf_tokens(ts: Seq<TokenV>) -> bool {
    forall|i: int| 0 <= i < ts.len() ==> wf_token(#[trigger] ts[i])
}

/// The concatenated rendering of the log, in order, with no separators.
pub open spec fn display_of(ts: Seq<TokenV>) -> Seq<char>
    decreases ts.len(),
{
    if ts.len() == 0 {
        Seq::empty()
    } else {
        display_of(ts.drop_last()) + token_text(ts.last())
    }
}

/// The calculator: the token log entered since the last clear.
pub struct Calculator {
    tokens: Vec<Token>,
}

impl View for Calculator {
    type V = Seq<TokenV>;

    closed spec fn view(&self) -> Seq<TokenV> {
        self.tokens@.map_values(|t: Token| t@)
    }
}

/// Appending a digit keeps a buffer well formed.
proof fn lemma_wf_buffer_push_digit(s: Seq<char>, c: char)
    requires
        wf_buffer(s),
        is_digit(c),
    ensures
        wf_buffer(s.push(c)),
{
    let t = s.push(c);
    assert(forall|i: int| 0 <= i < s.len() ==> t[i] == s[i]);
    assert(t[s.len() as int] == c);
}

/// Appending a dot to a dot-free buffer keeps it well formed.
proof fn lemma_wf_buffer_push_dot(s: Seq<char>)
    requires
        wf_buffer(s),
        !s.contains('.'),
    ensures
        wf_buffer(s.push('.')),
{
    let t = s.push('.');
    assert(forall|i: int| 0 <= i < s.len() ==> t[i] == s[i]);
    assert(forall|i: int| 0 <= i < s.len() ==> s[i] != '.');
}

/// Toggling the sign keeps a buffer well formed, and toggling twice
/// restores it exactly.
pub proof fn lemma_toggle_sign(s: Seq<char>)
    requires
        wf_buffer(s),
    ensures
        wf_buffer(toggle_sign(s)),
        toggle_sign(toggle_sign(s)) == s,
{
    if s[0] == '-' {
        let t = s.drop_first();
        assert(forall|i: int| 0 <= i < t.len() ==> t[i] == s[i + 1]);
        assert(t[0] != '-');
        assert(toggle_sign(t) =~= s);
    } else {
        let t = seq!['-'] + s;
        assert(t[0] == '-');
        assert(forall|i: int| 1 <= i < t.len() ==> t[i] == s[i - 1]);
        assert(t.drop_first() =~= s);
    }
}

impl Default for Calculator {
    /// A fresh calculator, as [`Calculator::new`] builds it.
    fn default() -> (r: Calculator)
        ensures
            r@ == Seq::<TokenV>::empty(),
            r.wf(),
    {
        Calculator::new()
    }
}

impl Calculator {
    /// Every token of the log is well formed.
    pub open spec fn wf(&self) -> bool {
        wf_tokens(self@)
    }

    /// A fresh calculator: the log starts empty.
    pub fn new() -> (r: Calculator)
        ensures
            r@ == Seq::<TokenV>::empty(),
            r.wf(),
    {
        let r = Calculator { tokens: Vec::new() };
        proof {
            assert(r@ =~= Seq::<TokenV>::empty());
        }
        r
    }

    /// Read access to the token log, for rendering.
    pub fn tokens(&self) -> (r: &Vec<Token>)
        ensures
            r@.map_values(|t: Token| t@) == self@,
    {
        &self.tokens
    }

    /// The current rendering of the log: every token's text, concatenated
    /// in order.
    #[verifier::loop_isolation(false)]
    pub fn display(&self) -> (r: String)
        ensures
            r@ == display_of(self@),
    {
        let mut out: Vec<char> = Vec::new();
        let n = self.tokens.len();
        let mut i: usize = 0;
        while i < n
            invariant
                i <= n,
                n == self.tokens.len(),
                out@ == display_of(self@.take(i as int)),
            decreases n - i,
        {
            let mut piece = self.tokens[i].to_chars();
            out.append(&mut piece);
            proof {
                let ts = self@;
                assert(ts.take(i + 1).drop_last() =~= ts.take(i as int));
                assert(ts.take(i + 1).last() == ts[i as int]);
            }
            i += 1;
        }
        proof {
            assert(self@.take(n as int) =~= self@);
        }
        crate::text::string_of_chars(&out)
    }

    /// Digit press: append the digit to a tail number buffer, else open a
    /// new number buffer holding just that digit.
    fn press_digit(&mut self, d: u8)
        requires
            old(self).wf(),
            d <= 9,
        ensures
            final(self)@ == digit_step(old(self)@, digit_char(d)),
            final(self).wf(),
    {
        let ghost ts = old(self)@;
        let c: char = match d {
            0 => '0',
            1 => '1',
            2 => '2',
            3 => '3',
            4 => '4',
            5 => '5',
            6 => '6',
            7 => '7',
            8 => '8',
            _ => '9',
        };
        assert(c == digit_char(d));
        let n = self.tokens.len();
        if n > 0 {
            let tok = self.tokens.remove(n - 1);
            match tok {
                Token::Number(mut buf) => {
                    proof {
                        assert(ts[n - 1] == TokenV::Number(buf@));
                        lemma_wf_buffer_push_digit(buf@, c);
                    }
                    buf.push(c);
                    self.tokens.push(Token::Number(buf));
                    proof {
                        assert(self@ =~= digit_step(ts, c));
                    }
                    return;
                },
                other_token => {
                    self.tokens.push(other_token);
                    proof {
                        assert(self@ =~= ts);
                    }
                },
            }
        }
        let mut buf: Vec<char> = Vec::new();
        buf.push(c);
        self.tokens.push(Token::Number(buf));
        proof {
            assert(buf@ =~= seq![c]);
            assert(is_digit(buf@[0]));
            assert(self@ =~= digit_step(ts, c));
        }
    }

    /// Sign change press: toggle the leading minus of the last numeric
    /// token, scanning from the tail; a no-op when none exists.
    #[verifier::loop_isolation(false)]
    fn press_sign_change(&mut self)
        requires
            old(self).wf(),
        ensures
            final(self)@ == sign_change_step(old(self)@),
            final(self).wf(),
    {
        let ghost ts = old(self)@;
        let ghost numeric = |t: TokenV| is_numeric(t);
        let mut j = self.tokens.len();
        while j > 0
            invariant
                old(self) == self,
                j <= self.tokens.len(),
                forall|i: int| j <= i < ts.len() ==> !is_numeric(ts[i]),
            decreases j,
        {
            j -= 1;
            let found = match &self.tokens[j] {
                Token::Number(_) => true,
                Token::Percentage(_) => true,
                _ => false,
            };
            if found {
                proof {
                    assert(ts[j as int] == self.tokens@[j as int]@);
                    lemma_last_matching_index_is(ts, numeric, j as int);
                    assert(last_matching_index(ts, numeric) == j);
                    assert(wf_token(ts[j as int]));
                }
                let tok = self.tokens.remove(j);
                match tok {
                    Token::Number(mut buf) => {
                        let ghost original = buf@;
                        proof {
                            assert(ts[j as int] == TokenV::Number(original));
                            lemma_toggle_sign(original);
                        }
                        if buf[0] == '-' {
                            buf.remove(0);
                        } else {
                            buf.insert(0, '-');
                        }
                        proof {
                            assert(buf@ =~= toggle_sign(original));
                        }
                        self.tokens.insert(j, Token::Number(buf));
                    },
                    Token::Percentage(mut buf) => {
                        let ghost original = buf@;
                        proof {
                            assert(ts[j as int] == TokenV::Percentage(original));
                            lemma_toggle_sign(original);
                        }
                        if buf[0] == '-' {
                            buf.remove(0);
                        } else {
                            buf.insert(0, '-');
                        }
                        proof {
                            assert(buf@ =~= toggle_sign(original));
                        }
                        self.tokens.insert(j, Token::Percentage(buf));
                    },
                    other_token => {
                        self.tokens.insert(j, other_token);
                    },
                }
                proof {
                    assert(self@ =~= sign_change_step(ts));
                }
                return;
            }
        }
        proof {
            lemma_last_matching_index(ts, numeric);
            assert(last_matching_index(ts, numeric) == -1);
        }
    }

    /// Percent press: convert a tail number token to a percentage carrying
    /// the same text; a no-op otherwise.
    fn press_percent(&mut self)
        requires
            old(self).wf(),
        ensures
            final(self)@ == percent_step(old(self)@),
            final(self).wf(),
    {
        let ghost ts = old(self)@;
        let n = self.tokens.len();
        if n > 0 {
            let tok = self.tokens.remove(n - 1);
            match tok {
                Token::Number(buf) => {
                    let ghost original = buf@;
                    self.tokens.push(Token::Percentage(buf));
                    proof {
                        assert(ts[n - 1] == TokenV::Number(original));
                        assert(self@ =~= percent_step(ts));
                    }
                },
                other_token => {
                    self.tokens.push(other_token);
                    proof {
                        assert(self@ =~= ts);
                    }
                },
            }
        }
    }

    /// Whether some character of the buffer equals `c`.
    #[verifier::loop_isolation(false)]
    fn buffer_contains(buf: &Vec<char>, c: char) -> (b: bool)
        ensures
            b == buf@.contains(c),
    {
        let n = buf.len();
        let mut i: usize = 0;
        while i < n
            invariant
                i <= n,
                n == buf.len(),
                forall|k: int| 0 <= k < i ==> buf@[k] != c,
            decreases n - i,
        {
            if buf[i] == c {
                return true;
            }
            i += 1;
        }
        false
    }

    /// Whether the number token nearest the tail already carries a dot.
    #[verifier::loop_isolation(false)]
    fn last_number_dotted(&self) -> (b: bool)
        ensures
            b == last_number_has_dot(self@),
    {
        let ghost ts = self@;
        let ghost number = |t: TokenV| t is Number;
        let mut j = self.tokens.len();
        while j > 0
            invariant
                j <= self.tokens.len(),
                forall|i: int| j <= i < ts.len() ==> !(ts[i] is Number),
            decreases j,
        {
            j -= 1;
            if let Token::Number(buf) = &self.tokens[j] {
                proof {
                    assert(ts[j as int] == self.tokens@[j as int]@);
                    lemma_last_matching_index_is(ts, number, j as int);
                }
                return Self::buffer_contains(buf, '.');
            }
        }
        proof {
            lemma_last_matching_index(ts, number);
        }
        false
    }

    /// Dot press: ignored when the nearest number buffer already carries a
    /// dot; else appended to a tail number buffer, or a fresh "0." buffer.
    fn press_dot(&mut self)
        requires
            old(self).wf(),
        ensures
            final(self)@ == dot_step(old(self)@),
            final(self).wf(),
    {
        let ghost ts = old(self)@;
        if self.last_number_dotted() {
            return;
        }
        let ghost number = |t: TokenV| t is Number;
        let n = self.tokens.len();
        if n > 0 {
            let tok = self.tokens.remove(n - 1);
            match tok {
                Token::Number(mut buf) => {
                    proof {
                        assert(ts[n - 1] == TokenV::Number(buf@));
                        lemma_last_matching_index_is(ts, number, n - 1);
                        assert(!buf@.contains('.'));
                        lemma_wf_buffer_push_dot(buf@);
                    }
                    buf.push('.');
                    self.tokens.push(Token::Number(buf));
                    proof {
                        assert(self@ =~= dot_step(ts));
                    }
                    return;
                },
                other_token => {
                    self.tokens.push(other_token);
                    proof {
                        assert(self@ =~= ts);
                    }
                },
            }
        }
        let mut buf: Vec<char> = Vec::new();
        buf.push('0');
        buf.push('.');
        self.tokens.push(Token::Number(buf));
        proof {
            assert(buf@ =~= seq!['0', '.']);
            assert(wf_buffer(buf@));
            assert(self@ =~= dot_step(ts));
        }
    }

    /// One button press, handled to completion. The log becomes
    /// `step(old log, message)`. An equals press returns the evaluation
    /// steps of the log (equals token included) for the shell to fold into
    /// a number; every other press returns nothing.
    pub fn update(&mut self, message: Message) -> (steps: Option<Vec<crate::eval::EvalStep>>)
        requires
            old(self).wf(),
            message matches Message::NumberButton(d) ==> d <= 9,
        ensures
            final(self).wf(),
            final(self)@ == step(old(self)@, message),
            message == Message::OperationButton(Operation::Equals) ==> (steps matches Option::Some(
                v,
            ) && crate::eval::steps_view(v@) == crate::eval::eval_steps(final(self)@)
                && crate::eval::steps_ok(crate::eval::steps_view(v@))),
            message != Message::OperationButton(Operation::Equals) ==> steps is None,
    {
        let ghost ts = old(self)@;
        match message {
            Message::NumberButton(d) => {
                self.press_digit(d);
                Option::None
            },
            Message::OperationButton(op) => match op {
                Operation::AC => {
                    self.tokens.clear();
                    proof {
                        assert(self@ =~= Seq::<TokenV>::empty());
                    }
                    Option::None
                },
                Operation::SignChange => {
                    self.press_sign_change();
                    Option::None
                },
                Operation::Percent => {
                    self.press_percent();
                    Option::None
                },
                Operation::Equals => {
                    self.tokens.push(Token::Operation(Operation::Equals));
                    proof {
                        assert(self@ =~= ts.push(TokenV::Operation(Operation::Equals)));
                    }
                    Option::Some(self.evaluation_steps())
                },
                Operation::Dot => {
                    self.press_dot();
                    Option::None
                },
                Operation::Divide => {
                    self.press_operator(op);
                    Option::None
                },
                Operation::Multiply => {
                    self.press_operator(op);
                    Option::None
                },
                Operation::Subtract => {
                    self.press_operator(op);
                    Option::None
                },
                Operation::Sum => {
                    self.press_operator(op);
                    Option::None
                },
            },
        }
    }

    /// Appends the rendered result of an evaluation to the log. The text
    /// of a result token is opaque to the log and never mutated.
    pub fn push_result(&mut self, text: String)
        requires
            old(self).wf(),
        ensures
            final(self)@ == old(self)@.push(TokenV::Result(text@)),
            final(self).wf(),
    {
        let ghost ts = old(self)@;
        let chars = crate::text::chars_of_str(text.as_str());
        self.tokens.push(Token::Result(chars));
        proof {
            assert(self@ =~= ts.push(TokenV::Result(text@)));
        }
    }

    /// Arithmetic operator press: ignored when an arithmetic operator
    /// already sits at the tail, else pushed.
    fn press_operator(&mut self, op: Operation)
        requires
            old(self).wf(),
            op.is_arithmetic(),
        ensures
            final(self)@ == operator_step(old(self)@, op),
            final(self).wf(),
    {
        let ghost ts = old(self)@;
        let n = self.tokens.len();
        if n > 0 {
            let tail_is_arith = match &self.tokens[n - 1] {
                Token::Operation(tail_op) => tail_op.arithmetic(),
                _ => false,
            };
            proof {
                assert(ts[n - 1] == self.tokens@[n - 1]@);
            }
            if tail_is_arith {
                return;
            }
        }
        self.tokens.push(Token::Operation(op));
        proof {
            assert(self@ =~= operator_step(ts, op));
        }
    }
}

} // verus!
