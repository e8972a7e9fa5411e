//! The evaluator: a single left-to-right reduction pass over the token
//! log, maintaining a running result and a pending operator. The numeric
//! work is double-precision floating point, which the verified core does
//! not carry; the pass is therefore rendered as an explicit list of
//! [`EvalStep`] values for the surrounding shell to fold into a number.

use vstd::prelude::*;

use crate::state::{wf_tokens, Calculator};
use crate::token::{wf_token, Operation, Token, TokenV};

verus! {

/// One numeric step of an evaluation: how the running result changes at
/// one operand of the log, read left to right.
#[derive(Debug)]
pub enum EvalStep {
    /// No operator is pending: the running result becomes the number.
    SetNumber(String),
    /// The pending operator is applied with the number as operand.
    ApplyNumber(Operation, String),
    /// No operator is pending: the running result becomes the number
    /// divided by one hundred.
    SetPercent(String),
    /// The pending operator is applied with percentage semantics: the
    /// fraction scales the running result for sum and subtract, and is an
    /// absolute multiplier for multiply and divide.
    ApplyPercent(Operation, String),
}

/// The mathematical shape of an evaluation step.
#[verifier::ext_equal]
pub enum StepV {
    SetNumber(Seq<char>),
    ApplyNumber(Operation, Seq<char>),
    SetPercent(Seq<char>),
    ApplyPercent(Operation, Seq<char>),
}

impl View for EvalStep {
    type V = StepV;

    open spec fn view(&self) -> StepV {
        match self {
            EvalStep::SetNumber(n) => StepV::SetNumber(n@),
            EvalStep::ApplyNumber(op, n) => StepV::ApplyNumber(*op, n@),
            EvalStep::SetPercent(n) => StepV::SetPercent(n@),
            EvalStep::ApplyPercent(op, n) => StepV::ApplyPercent(*op, n@),
        }
    }
}

/// The shapes of a list of evaluation steps.
pub open spec fn steps_view(v: Seq<EvalStep>) -> Seq<StepV> {
    v.map_values(|s: EvalStep| s@)
}

/// The steps of the reduction pass over `ts`, with `pending` the most
/// recently committed operator. A number or percentage token yields one
/// step; an equals token is a no-op; any other operation token becomes the
/// pending operator; a result token is ignored. The pending operator is
/// not cleared by use.
pub open spec fn eval_steps_from(ts: Seq<TokenV>, pending: Option<Operation>) -> Seq<StepV>
    decreases ts.len(),
{
    if ts.len() == 0 {
        Seq::empty()
    } else {
        let rest = ts.drop_first();
        match ts[0] {
            TokenV::Number(n) => (match pending {
                Option::Some(op) => seq![StepV::ApplyNumber(op, n)],
                Option::None => seq![StepV::SetNumber(n)],
            }) + eval_steps_from(rest, pending),
            TokenV::Percentage(n) => (match pending {
                Option::Some(op) => seq![StepV::ApplyPercent(op, n)],
                Option::None => seq![StepV::SetPercent(n)],
            }) + eval_steps_from(rest, pending),
            TokenV::Operation(op) => if op == Operation::Equals {
                eval_steps_from(rest, pending)
            } else {
                eval_steps_from(rest, Option::Some(op))
            },
            TokenV::Result(_) => eval_steps_from(rest, pending),
        }
    }
}

/// The steps of the full reduction pass: no operator pending at the start.
pub open spec fn eval_steps(ts: Seq<TokenV>) -> Seq<StepV> {
    eval_steps_from(ts, Option::None)
}

/// A step that applies an operator carries an arithmetic one.
pub open spec fn step_ok(s: StepV) -> bool {
    match s {
        StepV::SetNumber(_) => true,
        StepV::ApplyNumber(op, _) => op.is_arithmetic(),
        StepV::SetPercent(_) => true,
        StepV::ApplyPercent(op, _) => op.is_arithmetic(),
    }
}

/// Every applying step of the list carries an arithmetic operator.
pub open spec fn steps_ok(ss: Seq<StepV>) -> bool {
    forall|i: int| 0 <= i < ss.len() ==> step_ok(#[trigger] ss[i])
}

/// Over a well-formed log, every applying step carries an arithmetic
/// operator, so a fold over the steps never meets an unexpected one.
pub proof fn lemma_eval_steps_ok(ts: Seq<TokenV>, pending: Option<Operation>)
    requires
        wf_tokens(ts),
        pending matches Option::Some(op) ==> op.is_arithmetic(),
    ensures
        steps_ok(eval_steps_from(ts, pending)),
    decreases ts.len(),
{
    if ts.len() > 0 {
        let rest = ts.drop_first();
        assert(forall|i: int| 0 <= i < rest.len() ==> rest[i] == ts[i + 1]);
        assert(wf_tokens(rest));
        assert(wf_token(ts[0]));
        match ts[0] {
            TokenV::Operation(op) => {
                if op == Operation::Equals {
                    lemma_eval_steps_ok(rest, pending);
                } else {
                    lemma_eval_steps_ok(rest, Option::Some(op));
                }
            },
            _ => {
                lemma_eval_steps_ok(rest, pending);
            },
        }
    }
}

impl Calculator {
    /// The reduction pass over the current log, as an explicit list of
    /// numeric steps in log order.
    #[verifier::loop_isolation(false)]
    pub fn evaluation_steps(&self) -> (steps: Vec<EvalStep>)
        requires
            self.wf(),
        ensures
            steps_view(steps@) == eval_steps(self@),
            steps_ok(steps_view(steps@)),
    {
        let toks = self.tokens();
        let ghost ts = self@;
        let n = toks.len();
        let mut pending: Option<Operation> = Option::None;
        let mut out: Vec<EvalStep> = Vec::new();
        let mut i: usize = 0;
        proof {
            assert(ts.skip(0) =~= ts);
            assert(steps_view(out@) + eval_steps_from(ts, Option::None) =~= eval_steps_from(
                ts,
                Option::None,
            ));
        }
        while i < n
            invariant
                i <= n,
                pending matches Option::Some(op) ==> op.is_arithmetic(),
                eval_steps_from(ts, Option::None) == steps_view(out@) + eval_steps_from(
                    ts.skip(i as int),
                    pending,
                ),
            decreases n - i,
        {
            let ghost suffix = ts.skip(i as int);
            proof {
                assert(suffix[0] == ts[i as int]);
                assert(suffix.drop_first() =~= ts.skip(i + 1));
                assert(ts[i as int] == toks@[i as int]@);
                assert(wf_token(ts[i as int]));
            }
            match &toks[i] {
                Token::Number(buf) => {
                    let text = crate::text::string_of_chars(buf);
                    let next = match pending {
                        Option::Some(op) => EvalStep::ApplyNumber(op, text),
                        Option::None => EvalStep::SetNumber(text),
                    };
                    let ghost stv = next@;
                    out.push(next);
                    proof {
                        assert(steps_view(out@) =~= steps_view(out@.drop_last()) + seq![stv]);
                        assert(eval_steps_from(suffix, pending) =~= seq![stv]
                            + eval_steps_from(ts.skip(i + 1), pending));
                        assert(eval_steps_from(ts, Option::None) =~= steps_view(out@)
                            + eval_steps_from(ts.skip(i + 1), pending));
                    }
                },
                Token::Percentage(buf) => {
                    let text = crate::text::string_of_chars(buf);
                    let next = match pending {
                        Option::Some(op) => EvalStep::ApplyPercent(op, text),
                        Option::None => EvalStep::SetPercent(text),
                    };
                    let ghost stv = next@;
                    out.push(next);
                    proof {
                        assert(steps_view(out@) =~= steps_view(out@.drop_last()) + seq![stv]);
                        assert(eval_steps_from(suffix, pending) =~= seq![stv]
                            + eval_steps_from(ts.skip(i + 1), pending));
                        assert(eval_steps_from(ts, Option::None) =~= steps_view(out@)
                            + eval_steps_from(ts.skip(i + 1), pending));
                    }
                },
                Token::Operation(op) => {
                    match op {
                        Operation::Equals => {},
                        _ => {
                            pending = Option::Some(*op);
                        },
                    }
                },
                Token::Result(_) => {},
            }
            i += 1;
        }
        proof {
            assert(ts.skip(n as int) =~= Seq::<TokenV>::empty());
            assert(steps_view(out@) =~= steps_view(out@) + eval_steps_from(
                ts.skip(n as int),
                pending,
            ));
            lemma_eval_steps_ok(ts, Option::None);
        }
        out
    }
}

} // verus!
