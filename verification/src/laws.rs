//! Laws of the state machine, proved over the transition relation
//! [`step`]: what a run of digit presses displays, what clearing does,
//! when a dot press is ignored, that the sign toggle is an involution,
//! and that an operator press on an empty log is pushed unguarded.

use vstd::prelude::*;

use crate::state::{
    digit_char, display_of, last_matching_index, last_number_has_dot,
    lemma_last_matching_index, lemma_last_matching_index_is, lemma_toggle_sign, sign_change_step,
    step, toggle_sign, wf_tokens, Message,
};
use crate::token::{buffer_of, is_numeric, wf_token, Operation, TokenV};

verus! {

/// The log after a sequence of button presses, applied left to right.
pub open spec fn run(ts: Seq<TokenV>, presses: Seq<Message>) -> Seq<TokenV>
    decreases presses.len(),
{
    if presses.len() == 0 {
        ts
    } else {
        run(step(ts, presses[0]), presses.drop_first())
    }
}

/// The digit button presses for a sequence of digits.
pub open spec fn digit_presses(ds: Seq<u8>) -> Seq<Message> {
    ds.map_values(|d: u8| Message::NumberButton(d))
}

/// The characters those digit presses enter.
pub open spec fn digit_chars(ds: Seq<u8>) -> Seq<char> {
    ds.map_values(|d: u8| digit_char(d))
}

/// From a log holding a single number buffer, a run of digit presses
/// appends exactly the pressed digit characters to that buffer.
proof fn lemma_digit_run_buffer(buf: Seq<char>, ds: Seq<u8>)
    ensures
        run(seq![TokenV::Number(buf)], digit_presses(ds)) == seq![
            TokenV::Number(buf + digit_chars(ds)),
        ],
    decreases ds.len(),
{
    if ds.len() == 0 {
        assert(buf + digit_chars(ds) =~= buf);
    } else {
        let d = ds[0];
        let c = digit_char(d);
        assert(digit_presses(ds)[0] == Message::NumberButton(d));
        assert(step(seq![TokenV::Number(buf)], Message::NumberButton(d)) =~= seq![
            TokenV::Number(buf.push(c)),
        ]);
        assert(digit_presses(ds).drop_first() =~= digit_presses(ds.drop_first()));
        lemma_digit_run_buffer(buf.push(c), ds.drop_first());
        assert(buf.push(c) + digit_chars(ds.drop_first()) =~= buf + digit_chars(ds));
    }
}

/// For every non-empty sequence of digits pressed into a fresh log, the
/// display is the exact concatenation of the digits typed.
pub proof fn lemma_digits_display(ds: Seq<u8>)
    requires
        ds.len() > 0,
        forall|i: int| 0 <= i < ds.len() ==> ds[i] <= 9,
    ensures
        run(Seq::empty(), digit_presses(ds)) == seq![TokenV::Number(digit_chars(ds))],
        display_of(run(Seq::empty(), digit_presses(ds))) == digit_chars(ds),
{
    let d = ds[0];
    let c = digit_char(d);
    assert(digit_presses(ds)[0] == Message::NumberButton(d));
    assert(step(Seq::empty(), Message::NumberButton(d)) =~= seq![TokenV::Number(seq![c])]);
    assert(digit_presses(ds).drop_first() =~= digit_presses(ds.drop_first()));
    lemma_digit_run_buffer(seq![c], ds.drop_first());
    assert(seq![c] + digit_chars(ds.drop_first()) =~= digit_chars(ds));
    let single = seq![TokenV::Number(digit_chars(ds))];
    assert(single.drop_last() =~= Seq::<TokenV>::empty());
    assert(display_of(Seq::<TokenV>::empty()) == Seq::<char>::empty());
    assert(display_of(single) =~= digit_chars(ds));
}

/// Pressing AC at any point empties the log, so the display becomes the
/// empty string.
pub proof fn lemma_ac_clears(ts: Seq<TokenV>)
    ensures
        step(ts, Message::OperationButton(Operation::AC)) == Seq::<TokenV>::empty(),
        display_of(step(ts, Message::OperationButton(Operation::AC))) == Seq::<char>::empty(),
{
}

/// Pressing the dot while the number buffer nearest the tail already
/// carries one leaves the log, and so the display, unchanged.
pub proof fn lemma_dot_ignored(ts: Seq<TokenV>)
    requires
        last_number_has_dot(ts),
    ensures
        step(ts, Message::OperationButton(Operation::Dot)) == ts,
{
}

/// Two sign changes in a row restore the log exactly: toggling the
/// leading minus of the last numeric token is an involution.
pub proof fn lemma_sign_change_involution(ts: Seq<TokenV>)
    requires
        wf_tokens(ts),
    ensures
        step(
            step(ts, Message::OperationButton(Operation::SignChange)),
            Message::OperationButton(Operation::SignChange),
        ) == ts,
{
    let numeric = |t: TokenV| is_numeric(t);
    lemma_last_matching_index(ts, numeric);
    let k = last_matching_index(ts, numeric);
    if k >= 0 {
        assert(wf_token(ts[k]));
        let original = buffer_of(ts[k]);
        lemma_toggle_sign(original);
        let ts1 = sign_change_step(ts);
        assert(ts1[k] is Number <==> ts[k] is Number);
        assert(forall|i: int| k < i < ts1.len() ==> ts1[i] == ts[i]);
        lemma_last_matching_index_is(ts1, numeric, k);
        assert(buffer_of(ts1[k]) == toggle_sign(original));
        assert(sign_change_step(ts1) =~= ts);
    }
}

/// Whether a token is an arithmetic operator entry.
pub open spec fn is_arithmetic_token(t: TokenV) -> bool {
    t matches TokenV::Operation(op) && op.is_arithmetic()
}

/// No two arithmetic operator tokens stand next to each other: the
/// coalescing rule drops a press that would create such a pair.
pub open spec fn operators_apart(ts: Seq<TokenV>) -> bool {
    forall|i: int|
        0 <= i < ts.len() - 1 ==> !(is_arithmetic_token(#[trigger] ts[i]) && is_arithmetic_token(
            ts[i + 1],
        ))
}

/// One button press keeps arithmetic operator tokens apart.
pub proof fn lemma_step_keeps_operators_apart(ts: Seq<TokenV>, message: Message)
    requires
        operators_apart(ts),
    ensures
        operators_apart(step(ts, message)),
{
    let ts1 = step(ts, message);
    match message {
        Message::NumberButton(_) => {
            assert forall|i: int| #![trigger ts1[i]]
                0 <= i < ts1.len() - 1 implies !(is_arithmetic_token(ts1[i])
                && is_arithmetic_token(ts1[i + 1])) by {
                if i < ts.len() - 1 {
                    assert(!(is_arithmetic_token(ts[i]) && is_arithmetic_token(ts[i + 1])));
                }
            }
        },
        Message::OperationButton(op) => match op {
            Operation::SignChange => {
                let numeric = |t: TokenV| is_numeric(t);
                lemma_last_matching_index(ts, numeric);
                assert forall|i: int| #![trigger ts1[i]]
                    0 <= i < ts1.len() - 1 implies !(is_arithmetic_token(ts1[i])
                    && is_arithmetic_token(ts1[i + 1])) by {
                    assert(!(is_arithmetic_token(ts[i]) && is_arithmetic_token(ts[i + 1])));
                }
            },
            _ => {
                assert forall|i: int| #![trigger ts1[i]]
                    0 <= i < ts1.len() - 1 implies !(is_arithmetic_token(ts1[i])
                    && is_arithmetic_token(ts1[i + 1])) by {
                    if i < ts.len() - 1 {
                        assert(!(is_arithmetic_token(ts[i]) && is_arithmetic_token(ts[i + 1])));
                    }
                }
            },
        },
    }
}

/// From a log with arithmetic operator tokens apart, no run of button
/// presses ever brings two of them together; in particular every log
/// reachable from a fresh calculator keeps them apart.
pub proof fn lemma_run_keeps_operators_apart(ts: Seq<TokenV>, presses: Seq<Message>)
    requires
        operators_apart(ts),
    ensures
        operators_apart(run(ts, presses)),
    decreases presses.len(),
{
    if presses.len() > 0 {
        lemma_step_keeps_operators_apart(ts, presses[0]);
        lemma_run_keeps_operators_apart(step(ts, presses[0]), presses.drop_first());
    }
}

/// An arithmetic operator pressed on an empty log is still pushed, with
/// no numeric token required: the display shows the operator's symbol
/// alone.
pub proof fn lemma_operator_on_empty(op: Operation)
    requires
        op.is_arithmetic(),
    ensures
        step(Seq::empty(), Message::OperationButton(op)) == seq![TokenV::Operation(op)],
        display_of(step(Seq::empty(), Message::OperationButton(op))) == op.symbol(),
{
    let single = seq![TokenV::Operation(op)];
    assert(step(Seq::empty(), Message::OperationButton(op)) =~= single);
    assert(single.drop_last() =~= Seq::<TokenV>::empty());
    assert(display_of(Seq::<TokenV>::empty()) == Seq::<char>::empty());
    assert(display_of(single) =~= op.symbol());
}

} // verus!
