//! The tests that draw a random operand (or random bytes): one pass each.

use vstd::prelude::*;

use crate::fixed_tests::fixed_test_outcome;
use crate::passes::{
    interval_for, is_checkpoint, lemma_poll_next_pass, lemma_poll_step, polled_false_before, run_passes, update_interval, Pass,
};
use crate::random::{draw_byte_for, draw_operand};

verus! {

/// The list made of the single pass `p`.
pub open spec fn one_pass(p: Pass) -> Seq<Pass> {
    seq![p]
}

/// The operations of the tests that draw one random operand.
pub enum Operation {
    Xor,
    Sub,
    Mul,
    Div,
    Or,
    And,
    Sequence,
}

/// The pass an operation makes with the operand `q`.
pub open spec fn operand_pass(op: Operation, q: u8) -> Pass {
    match op {
        Operation::Xor => Pass::Xor(q),
        Operation::Sub => Pass::Sub(q),
        Operation::Mul => Pass::Mul(q),
        Operation::Div => Pass::Div(q),
        Operation::Or => Pass::Or(q),
        Operation::And => Pass::And(q),
        Operation::Sequence => Pass::Sequence(q),
    }
}

/// Which operands an operation may use: any byte but 0 for a division.
pub open spec fn operand_allowed(op: Operation, q: u8) -> bool {
    match op {
        Operation::Div => q != 0,
        _ => true,
    }
}

/// The operand an operation uses for the drawn byte `d`: `d` itself, but
/// 1 in place of 0 for a division.
pub open spec fn operand_from(op: Operation, d: u8) -> u8 {
    match op {
        Operation::Div => divisor_spec(d),
        _ => d,
    }
}

/// What a test that draws one operand leaves: for the byte `d` drawn by
/// `draw_operand`, what a run of its single pass with the operand made of
/// `d` leaves (the stop check included).
pub open spec fn operand_test_outcome<F: Fn(usize, usize) -> bool>(
    stop: F,
    op: Operation,
    a0: Seq<u8>,
    b0: Seq<u8>,
    a1: Seq<u8>,
    b1: Seq<u8>,
    size: int,
    stopped: bool,
) -> bool {
    exists|d: u8|
        #[trigger] draw_operand.ensures((), d) && operand_allowed(op, operand_from(op, d))
            && fixed_test_outcome(
            stop,
            a0,
            b0,
            a1,
            b1,
            one_pass(operand_pass(op, operand_from(op, d))),
            size,
            stopped,
        )
}

/// The divisor used by the division test: the drawn byte, or 1 for 0.
pub open spec fn divisor_spec(q: u8) -> u8 {
    if q == 0 {
        1
    } else {
        q
    }
}

/// The divisor used by the division test: the drawn byte, or 1 for 0.
pub fn divisor_from(q: u8) -> (d: u8)
    ensures
        d == divisor_spec(q),
        d != 0,
{
    if q == 0 {
        1
    } else {
        q
    }
}

/// Runs the single pass `p` over positions `0..size` of both halves,
/// polling the stop flag at every checkpoint. Returns whether it stopped.
pub fn run_single_pass<F: Fn(usize, usize) -> bool>(
    bufa: &mut [u8],
    bufb: &mut [u8],
    size: usize,
    p: Pass,
    stop: &F,
) -> (stopped: bool)
    requires
        size <= old(bufa)@.len(),
        size <= old(bufb)@.len(),
        p.wf(),
        forall|pp: usize, i: usize| #[trigger] stop.requires((pp, i)),
    ensures
        fixed_test_outcome(
            *stop,
            old(bufa)@,
            old(bufb)@,
            final(bufa)@,
            final(bufb)@,
            one_pass(p),
            size as int,
            stopped,
        ),
{
    let mut passes: Vec<Pass> = Vec::new();
    passes.push(p);
    assert(passes@ =~= one_pass(p));
    run_passes(bufa, bufb, size, &passes, stop)
}

/// Positions `0..n` of the two halves hold the same bytes, and the rest of
/// each half is as it was.
pub open spec fn equal_prefix_written(
    a_before: Seq<u8>,
    b_before: Seq<u8>,
    a_after: Seq<u8>,
    b_after: Seq<u8>,
    n: int,
) -> bool {
    &&& a_after.len() == a_before.len()
    &&& b_after.len() == b_before.len()
    &&& forall|k: int| 0 <= k < n ==> #[trigger] a_after[k] == b_after[k]
    &&& forall|k: int| n <= k < a_before.len() ==> #[trigger] a_after[k] == a_before[k]
    &&& forall|k: int| n <= k < b_before.len() ==> #[trigger] b_after[k] == b_before[k]
}

/// Each position `k` of `0..n` holds the byte drawn for it.
pub open spec fn own_draws(s: Seq<u8>, n: int) -> bool {
    forall|k: int| 0 <= k < n ==> #[trigger] draw_byte_for.ensures((k as usize,), s[k])
}

/// What the random-value test leaves: the halves agree over the part
/// written, the rest is as it was, and `stop` was asked at each checkpoint:
/// either it answered `false` everywhere and all of `0..size` was written,
/// or the run stopped right after the first checkpoint it answered `true`.
pub open spec fn random_value_outcome<F: Fn(usize, usize) -> bool>(
    stop: F,
    a0: Seq<u8>,
    b0: Seq<u8>,
    a1: Seq<u8>,
    b1: Seq<u8>,
    size: int,
    stopped: bool,
) -> bool {
    &&& !stopped ==> equal_prefix_written(a0, b0, a1, b1, size) && own_draws(a1, size)
        && polled_false_before(
        stop,
        1,
        size,
        interval_for(size),
        1,
        0,
    )
    &&& stopped ==> exists|i: int|
        #![trigger is_checkpoint(i, interval_for(size))]
        i < size && is_checkpoint(i, interval_for(size)) && equal_prefix_written(
            a0,
            b0,
            a1,
            b1,
            i + 1,
        ) && own_draws(a1, i + 1) && stop.ensures((0usize, i as usize), true) && polled_false_before(
            stop,
            1,
            size,
            interval_for(size),
            0,
            i,
        )
}

/// Test 2, "Random Value": each position of `0..size` gets a fresh random
/// byte, the same in both halves. After writing a checkpoint position `i`
/// it asks `stop` (with pass 0 and `i`) whether to stop. Returns whether it
/// stopped; then the halves agree up to and including that checkpoint.
pub fn test_random_value<F: Fn(usize, usize) -> bool>(
    bufa: &mut [u8],
    bufb: &mut [u8],
    size: usize,
    stop: &F,
) -> (stopped: bool)
    requires
        size <= old(bufa)@.len(),
        size <= old(bufb)@.len(),
        forall|p: usize, i: usize| #[trigger] stop.requires((p, i)),
    ensures
        random_value_outcome(*stop, old(bufa)@, old(bufb)@, final(bufa)@, final(bufb)@, size as int, stopped),
{
    let interval = update_interval(size);
    let ghost a0 = bufa@;
    let ghost b0 = bufb@;
    let mut i: usize = 0;
    while i < size
        invariant
            a0 == old(bufa)@,
            b0 == old(bufb)@,
            0 <= i <= size,
            size <= a0.len(),
            size <= b0.len(),
            interval == interval_for(size as int),
            interval >= 1,
            forall|pp: usize, ii: usize| #[trigger] stop.requires((pp, ii)),
            equal_prefix_written(a0, b0, bufa@, bufb@, i as int),
            own_draws(bufa@, i as int),
            polled_false_before(*stop, 1, size as int, interval as int, 0, i as int),
        decreases size - i,
    {
        let val = draw_byte_for(i);
        bufa[i] = val;
        bufb[i] = val;
        assert(own_draws(bufa@, i + 1)) by {
            assert forall|k: int| 0 <= k < i + 1 implies #[trigger] draw_byte_for.ensures(
                (k as usize,),
                bufa@[k],
            ) by {
                if k == i {
                    assert((k as usize,) == (i,));
                }
            }
        }
        if i % interval == 0 && i > 0 {
            let asked = stop(0, i);
            if asked {
                assert(is_checkpoint(i as int, interval as int));
                assert(equal_prefix_written(a0, b0, bufa@, bufb@, i + 1));
                return true;
            }
            proof {
                let z: int = 0;
                assert((z as usize, (i as int) as usize) == (0usize, i));
                lemma_poll_step(*stop, 1, size as int, interval as int, 0, i as int);
            }
        } else {
            proof {
                lemma_poll_step(*stop, 1, size as int, interval as int, 0, i as int);
            }
        }
        i = i + 1;
    }
    proof {
        lemma_poll_next_pass(*stop, 1, size as int, interval as int, 0);
    }
    false
}

/// Test 3, "Compare XOR": both halves XORed with one random byte.
pub fn test_xor_comparison<F: Fn(usize, usize) -> bool>(
    bufa: &mut [u8],
    bufb: &mut [u8],
    size: usize,
    stop: &F,
) -> (stopped: bool)
    requires
        size <= old(bufa)@.len(),
        size <= old(bufb)@.len(),
        forall|p: usize, i: usize| #[trigger] stop.requires((p, i)),
    ensures
        operand_test_outcome(
            *stop,
            Operation::Xor,
            old(bufa)@,
            old(bufb)@,
            final(bufa)@,
            final(bufb)@,
            size as int,
            stopped,
        ),
{
    let q = draw_operand();
    let stopped = run_single_pass(bufa, bufb, size, Pass::Xor(q), stop);
    assert(operand_pass(Operation::Xor, operand_from(Operation::Xor, q)) == Pass::Xor(q));
    assert(draw_operand.ensures((), q));
    stopped
}

/// Test 4, "Compare SUB": one random byte subtracted from each byte.
pub fn test_sub_comparison<F: Fn(usize, usize) -> bool>(
    bufa: &mut [u8],
    bufb: &mut [u8],
    size: usize,
    stop: &F,
) -> (stopped: bool)
    requires
        size <= old(bufa)@.len(),
        size <= old(bufb)@.len(),
        forall|p: usize, i: usize| #[trigger] stop.requires((p, i)),
    ensures
        operand_test_outcome(
            *stop,
            Operation::Sub,
            old(bufa)@,
            old(bufb)@,
            final(bufa)@,
            final(bufb)@,
            size as int,
            stopped,
        ),
{
    let q = draw_operand();
    let stopped = run_single_pass(bufa, bufb, size, Pass::Sub(q), stop);
    assert(operand_pass(Operation::Sub, operand_from(Operation::Sub, q)) == Pass::Sub(q));
    assert(draw_operand.ensures((), q));
    stopped
}

/// Test 5, "Compare MUL": each byte multiplied by one random byte.
pub fn test_mul_comparison<F: Fn(usize, usize) -> bool>(
    bufa: &mut [u8],
    bufb: &mut [u8],
    size: usize,
    stop: &F,
) -> (stopped: bool)
    requires
        size <= old(bufa)@.len(),
        size <= old(bufb)@.len(),
        forall|p: usize, i: usize| #[trigger] stop.requires((p, i)),
    ensures
        operand_test_outcome(
            *stop,
            Operation::Mul,
            old(bufa)@,
            old(bufb)@,
            final(bufa)@,
            final(bufb)@,
            size as int,
            stopped,
        ),
{
    let q = draw_operand();
    let stopped = run_single_pass(bufa, bufb, size, Pass::Mul(q), stop);
    assert(operand_pass(Operation::Mul, operand_from(Operation::Mul, q)) == Pass::Mul(q));
    assert(draw_operand.ensures((), q));
    stopped
}

/// Test 6, "Compare DIV": each byte divided by one random nonzero byte
/// (a drawn 0 becomes 1).
pub fn test_div_comparison<F: Fn(usize, usize) -> bool>(
    bufa: &mut [u8],
    bufb: &mut [u8],
    size: usize,
    stop: &F,
) -> (stopped: bool)
    requires
        size <= old(bufa)@.len(),
        size <= old(bufb)@.len(),
        forall|p: usize, i: usize| #[trigger] stop.requires((p, i)),
    ensures
        operand_test_outcome(
            *stop,
            Operation::Div,
            old(bufa)@,
            old(bufb)@,
            final(bufa)@,
            final(bufb)@,
            size as int,
            stopped,
        ),
{
    let drawn = draw_operand();
    let q = divisor_from(drawn);
    let stopped = run_single_pass(bufa, bufb, size, Pass::Div(q), stop);
    assert(operand_pass(Operation::Div, operand_from(Operation::Div, drawn)) == Pass::Div(q));
    assert(draw_operand.ensures((), drawn));
    stopped
}

/// Test 7, "Compare OR": each byte ORed with one random byte.
pub fn test_or_comparison<F: Fn(usize, usize) -> bool>(
    bufa: &mut [u8],
    bufb: &mut [u8],
    size: usize,
    stop: &F,
) -> (stopped: bool)
    requires
        size <= old(bufa)@.len(),
        size <= old(bufb)@.len(),
        forall|p: usize, i: usize| #[trigger] stop.requires((p, i)),
    ensures
        operand_test_outcome(
            *stop,
            Operation::Or,
            old(bufa)@,
            old(bufb)@,
            final(bufa)@,
            final(bufb)@,
            size as int,
            stopped,
        ),
{
    let q = draw_operand();
    let stopped = run_single_pass(bufa, bufb, size, Pass::Or(q), stop);
    assert(operand_pass(Operation::Or, operand_from(Operation::Or, q)) == Pass::Or(q));
    assert(draw_operand.ensures((), q));
    stopped
}

/// Test 8, "Compare AND": each byte ANDed with one random byte.
pub fn test_and_comparison<F: Fn(usize, usize) -> bool>(
    bufa: &mut [u8],
    bufb: &mut [u8],
    size: usize,
    stop: &F,
) -> (stopped: bool)
    requires
        size <= old(bufa)@.len(),
        size <= old(bufb)@.len(),
        forall|p: usize, i: usize| #[trigger] stop.requires((p, i)),
    ensures
        operand_test_outcome(
            *stop,
            Operation::And,
            old(bufa)@,
            old(bufb)@,
            final(bufa)@,
            final(bufb)@,
            size as int,
            stopped,
        ),
{
    let q = draw_operand();
    let stopped = run_single_pass(bufa, bufb, size, Pass::And(q), stop);
    assert(operand_pass(Operation::And, operand_from(Operation::And, q)) == Pass::And(q));
    assert(draw_operand.ensures((), q));
    stopped
}

/// Test 9, "Sequential Increment": position `i` gets the low byte of
/// `i + q`, for one random byte `q`.
pub fn test_seqinc_comparison<F: Fn(usize, usize) -> bool>(
    bufa: &mut [u8],
    bufb: &mut [u8],
    size: usize,
    stop: &F,
) -> (stopped: bool)
    requires
        size <= old(bufa)@.len(),
        size <= old(bufb)@.len(),
        forall|p: usize, i: usize| #[trigger] stop.requires((p, i)),
    ensures
        operand_test_outcome(
            *stop,
            Operation::Sequence,
            old(bufa)@,
            old(bufb)@,
            final(bufa)@,
            final(bufb)@,
            size as int,
            stopped,
        ),
{
    let q = draw_operand();
    let stopped = run_single_pass(bufa, bufb, size, Pass::Sequence(q), stop);
    assert(operand_pass(Operation::Sequence, operand_from(Operation::Sequence, q)) == Pass::Sequence(q));
    assert(draw_operand.ensures((), q));
    stopped
}

} // verus!
