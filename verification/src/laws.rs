//! What holds of the tests as a whole: the halves they leave, what the
//! comparison then finds, and which tests each mode runs.

use vstd::prelude::*;

use crate::catalog::{
    all_kinds, default_kinds, half_of, kind_at, listed_names, name_of, number_of, test_outcome,
    TestKind,
};
use crate::random::{draw_byte_for, draw_operand};
use crate::run::{report_for, TestReport};
use crate::compare::{lemma_equal_halves_no_mismatch, mismatch_positions};
use crate::fixed_tests::{
    bit_flip_passes, bit_spread_passes, block_sequential_passes, checkerboard_passes,
    solid_bits_passes, standard_passes, walking_bit_clear_passes, walking_bit_set_passes,
};
use crate::fixed_tests::fixed_test_outcome;
use crate::operand_tests::{
    one_pass, operand_allowed, operand_from, operand_pass, operand_test_outcome,
    random_value_outcome, Operation,
};
use crate::passes::{
    apply_passes, before_point, pass_byte, is_checkpoint, polled_false_before, run_outcome, stopped_state, valid_stop, has_overwrite, lemma_apply_passes_len, lemma_overwrite_makes_equal,
    lemma_passes_keep_equal, lemma_passes_leave_rest, Pass,
};

verus! {

/// Whether a test writes its bytes without reading what was there: all
/// but the six that combine each byte with a random operand.
pub open spec fn overwrites(k: TestKind) -> bool {
    match k {
        TestKind::Xor | TestKind::Sub | TestKind::Mul | TestKind::Div | TestKind::Or
        | TestKind::And => false,
        _ => true,
    }
}

/// Whether two buffers hold the same bytes over `0..n`.
pub open spec fn agree_on(a: Seq<u8>, b: Seq<u8>, n: int) -> bool {
    forall|j: int| 0 <= j < n ==> #[trigger] a[j] == b[j]
}

/// Whether `after` is `before` from position `n` on.
pub open spec fn unchanged_from(before: Seq<u8>, after: Seq<u8>, n: int) -> bool {
    after.len() == before.len() && forall|j: int| n <= j < before.len() ==> #[trigger] after[j]
        == before[j]
}

/// A completed run of a list of passes leaves the halves equal over its
/// range, where the list overwrites or the halves were equal before, and
/// leaves the rest of each half alone.
proof fn lemma_completed_passes(a0: Seq<u8>, b0: Seq<u8>, ps: Seq<Pass>, size: int)
    requires
        0 <= size <= a0.len(),
        size <= b0.len(),
        has_overwrite(ps) || agree_on(a0, b0, size),
    ensures
        agree_on(apply_passes(a0, ps, size), apply_passes(b0, ps, size), size),
        unchanged_from(a0, apply_passes(a0, ps, size), size),
        unchanged_from(b0, apply_passes(b0, ps, size), size),
{
    lemma_apply_passes_len(a0, ps, size);
    lemma_apply_passes_len(b0, ps, size);
    assert forall|j: int| 0 <= j < size implies #[trigger] apply_passes(a0, ps, size)[j]
        == apply_passes(b0, ps, size)[j] by {
        if has_overwrite(ps) {
            lemma_overwrite_makes_equal(a0, b0, ps, size, j);
        } else {
            lemma_passes_keep_equal(a0, b0, ps, size, j);
        }
    }
    assert forall|j: int| size <= j < a0.len() implies #[trigger] apply_passes(a0, ps, size)[j]
        == a0[j] by {
        lemma_passes_leave_rest(a0, ps, size, j);
    }
    assert forall|j: int| size <= j < b0.len() implies #[trigger] apply_passes(b0, ps, size)[j]
        == b0[j] by {
        lemma_passes_leave_rest(b0, ps, size, j);
    }
}

/// A completed run of a test that draws one operand: whatever the operand,
/// the halves agree over the range where they did before (everywhere, for
/// the sequence, which does not read the old bytes), and the rest is alone.
proof fn lemma_operand_completed<F: Fn(usize, usize) -> bool>(
    stop: F,
    op: Operation,
    a0: Seq<u8>,
    b0: Seq<u8>,
    a1: Seq<u8>,
    b1: Seq<u8>,
    size: int,
)
    requires
        0 <= size <= a0.len(),
        size <= b0.len(),
        operand_test_outcome(stop, op, a0, b0, a1, b1, size, false),
        op == Operation::Sequence || agree_on(a0, b0, size),
    ensures
        agree_on(a1, b1, size),
        unchanged_from(a0, a1, size),
        unchanged_from(b0, b1, size),
{
    let q = choose|q: u8|
        operand_allowed(op, q) && fixed_test_outcome(
            stop,
            a0,
            b0,
            a1,
            b1,
            #[trigger] one_pass(operand_pass(op, q)),
            size,
            false,
        );
    assert(one_pass(operand_pass(op, q))[0] == operand_pass(op, q));
    lemma_completed_passes(a0, b0, one_pass(operand_pass(op, q)), size);
}

/// Every pass list of the overwriting tests starts with a pass that
/// overwrites.
proof fn lemma_fixed_lists_overwrite()
    ensures
        has_overwrite(standard_passes()),
        has_overwrite(solid_bits_passes()),
        has_overwrite(block_sequential_passes()),
        has_overwrite(checkerboard_passes()),
        has_overwrite(bit_spread_passes()),
        has_overwrite(bit_flip_passes()),
        has_overwrite(walking_bit_set_passes()),
        has_overwrite(walking_bit_clear_passes()),
{
    assert(!standard_passes()[0].reads_old());
    assert(!solid_bits_passes()[0].reads_old());
    assert(!block_sequential_passes()[0].reads_old());
    assert(!checkerboard_passes()[0].reads_old());
    assert(!bit_spread_passes()[0].reads_old());
    assert(!bit_flip_passes()[0].reads_old());
    assert(!walking_bit_set_passes()[0].reads_old());
    assert(!walking_bit_clear_passes()[0].reads_old());
}

/// A test that runs to its end leaves the two halves holding the same
/// bytes over the tested range — whatever they held before, for a test
/// that overwrites; where they held the same bytes before, for the tests
/// that combine each byte with an operand — and leaves the rest of each
/// half as it was.
pub proof fn law_completed_test_leaves_halves_equal<F: Fn(usize, usize) -> bool>(
    k: TestKind,
    stop: F,
    a0: Seq<u8>,
    b0: Seq<u8>,
    a1: Seq<u8>,
    b1: Seq<u8>,
    size: int,
)
    requires
        0 <= size <= a0.len(),
        size <= b0.len(),
        test_outcome(k, stop, a0, b0, a1, b1, size, false),
        overwrites(k) || agree_on(a0, b0, size),
    ensures
        agree_on(a1, b1, size),
        unchanged_from(a0, a1, size),
        unchanged_from(b0, b1, size),
{
    lemma_fixed_lists_overwrite();
    match k {
        TestKind::Standard => lemma_completed_passes(a0, b0, standard_passes(), size),
        TestKind::RandomValue => {},
        TestKind::Xor => lemma_operand_completed(stop, Operation::Xor, a0, b0, a1, b1, size),
        TestKind::Sub => lemma_operand_completed(stop, Operation::Sub, a0, b0, a1, b1, size),
        TestKind::Mul => lemma_operand_completed(stop, Operation::Mul, a0, b0, a1, b1, size),
        TestKind::Div => lemma_operand_completed(stop, Operation::Div, a0, b0, a1, b1, size),
        TestKind::Or => lemma_operand_completed(stop, Operation::Or, a0, b0, a1, b1, size),
        TestKind::And => lemma_operand_completed(stop, Operation::And, a0, b0, a1, b1, size),
        TestKind::SeqInc => lemma_operand_completed(stop, Operation::Sequence, a0, b0, a1, b1, size),
        TestKind::SolidBits => lemma_completed_passes(a0, b0, solid_bits_passes(), size),
        TestKind::BlockSeq => lemma_completed_passes(a0, b0, block_sequential_passes(), size),
        TestKind::Checkerboard => lemma_completed_passes(a0, b0, checkerboard_passes(), size),
        TestKind::BitSpread => lemma_completed_passes(a0, b0, bit_spread_passes(), size),
        TestKind::BitFlip => lemma_completed_passes(a0, b0, bit_flip_passes(), size),
        TestKind::WalkingOnes => lemma_completed_passes(a0, b0, walking_bit_clear_passes(), size),
        TestKind::WalkingZeroes => lemma_completed_passes(a0, b0, walking_bit_set_passes(), size),
    }
}

/// On memory that keeps what is written, every test run to its end over
/// the two halves of a buffer whose halves start out alike (such as a
/// freshly zeroed one) reports no error: the comparison of the tested
/// range lists no position.
pub proof fn law_sound_memory_reports_no_error<F: Fn(usize, usize) -> bool>(
    k: TestKind,
    stop: F,
    before: Seq<u8>,
    after: Seq<u8>,
)
    requires
        after.len() == before.len(),
        agree_on(before, before.skip(half_of(before.len())), half_of(before.len())),
        test_outcome(
            k,
            stop,
            before.take(half_of(before.len())),
            before.skip(half_of(before.len())),
            after.take(half_of(before.len())),
            after.skip(half_of(before.len())),
            half_of(before.len()),
            false,
        ),
    ensures
        mismatch_positions(
            after.take(half_of(before.len())),
            after.skip(half_of(before.len())),
            0,
            half_of(before.len()),
        ) == Seq::<usize>::empty(),
{
    let h = half_of(before.len());
    let a0 = before.take(h);
    let b0 = before.skip(h);
    assert(agree_on(a0, b0, h)) by {
        assert forall|j: int| 0 <= j < h implies #[trigger] a0[j] == b0[j] by {
            assert(before[j] == before.skip(h)[j]);
        }
    }
    law_completed_test_leaves_halves_equal(k, stop, a0, b0, after.take(h), after.skip(h), h);
    lemma_equal_halves_no_mismatch(after.take(h), after.skip(h), 0, h);
}

/// A run of passes over `0..size`, whether it completes or stops at a
/// checkpoint, never touches a byte from position `size` on.
pub proof fn law_run_leaves_rest_alone<F: Fn(usize, usize) -> bool>(
    stop: F,
    a0: Seq<u8>,
    b0: Seq<u8>,
    a1: Seq<u8>,
    b1: Seq<u8>,
    ps: Seq<Pass>,
    size: int,
    interval: int,
    stopped: bool,
)
    requires
        0 <= size <= a0.len(),
        size <= b0.len(),
        run_outcome(stop, a0, b0, a1, b1, ps, size, interval, stopped),
    ensures
        unchanged_from(a0, a1, size),
        unchanged_from(b0, b1, size),
{
    if !stopped {
        lemma_completed_passes_rest(a0, ps, size);
        lemma_completed_passes_rest(b0, ps, size);
    } else {
        let (p, i) = choose|p: int, i: int|
            #[trigger] valid_stop(ps, size, interval, p, i) && a1 == stopped_state(
                a0,
                ps,
                size,
                p,
                i,
            ) && b1 == stopped_state(b0, ps, size, p, i) && stop.ensures((p as usize, i as usize), true)
                && polled_false_before(stop, ps.len() as int, size, interval, p, i);
        lemma_completed_passes_rest(a0, ps.take(p), size);
        lemma_completed_passes_rest(b0, ps.take(p), size);
    }
}

/// The bytes from `size` on after a completed run over `0..size`.
proof fn lemma_completed_passes_rest(s: Seq<u8>, ps: Seq<Pass>, size: int)
    requires
        0 <= size <= s.len(),
    ensures
        unchanged_from(s, apply_passes(s, ps, size), size),
{
    lemma_apply_passes_len(s, ps, size);
    assert forall|j: int| size <= j < s.len() implies #[trigger] apply_passes(s, ps, size)[j]
        == s[j] by {
        lemma_passes_leave_rest(s, ps, size, j);
    }
}

/// A run that is never told to stop writes every pass in full and reports
/// that it did not stop.
pub proof fn law_run_without_stop_request_completes<F: Fn(usize, usize) -> bool>(
    stop: F,
    a0: Seq<u8>,
    b0: Seq<u8>,
    a1: Seq<u8>,
    b1: Seq<u8>,
    ps: Seq<Pass>,
    size: int,
    interval: int,
    stopped: bool,
)
    requires
        forall|p: usize, i: usize, r: bool| #[trigger] stop.ensures((p, i), r) ==> !r,
        run_outcome(stop, a0, b0, a1, b1, ps, size, interval, stopped),
    ensures
        !stopped,
        a1 == apply_passes(a0, ps, size),
        b1 == apply_passes(b0, ps, size),
{
    if stopped {
        let (p, i) = choose|p: int, i: int|
            #[trigger] valid_stop(ps, size, interval, p, i) && a1 == stopped_state(
                a0,
                ps,
                size,
                p,
                i,
            ) && b1 == stopped_state(b0, ps, size, p, i) && stop.ensures((p as usize, i as usize), true)
                && polled_false_before(stop, ps.len() as int, size, interval, p, i);
        assert(stop.ensures((p as usize, i as usize), true));
    }
}

/// A run that is told to stop at every checkpoint stops at the first one:
/// right after the first pass writes the position equal to the interval.
pub proof fn law_stop_request_stops_at_first_checkpoint<F: Fn(usize, usize) -> bool>(
    stop: F,
    a0: Seq<u8>,
    b0: Seq<u8>,
    a1: Seq<u8>,
    b1: Seq<u8>,
    ps: Seq<Pass>,
    size: int,
    interval: int,
    stopped: bool,
)
    requires
        forall|p: usize, i: usize, r: bool| #[trigger] stop.ensures((p, i), r) ==> r,
        ps.len() > 0,
        0 < interval < size,
        size <= usize::MAX,
        run_outcome(stop, a0, b0, a1, b1, ps, size, interval, stopped),
    ensures
        stopped,
        a1 == stopped_state(a0, ps, size, 0, interval),
        b1 == stopped_state(b0, ps, size, 0, interval),
{
    assert(is_checkpoint(interval, interval)) by {
        assert(interval % interval == 0) by (nonlinear_arith)
            requires
                interval > 0,
        ;
    }
    let z: int = 0;
    if !stopped {
        assert(before_point(z, interval, ps.len() as int, 0));
        assert(stop.ensures((z as usize, interval as usize), false));
    } else {
        let (p, i) = choose|p: int, i: int|
            #[trigger] valid_stop(ps, size, interval, p, i) && a1 == stopped_state(
                a0,
                ps,
                size,
                p,
                i,
            ) && b1 == stopped_state(b0, ps, size, p, i) && stop.ensures((p as usize, i as usize), true)
                && polled_false_before(stop, ps.len() as int, size, interval, p, i);
        if p != 0 || i != interval {
            assert(i >= interval) by (nonlinear_arith)
                requires
                    i > 0,
                    i % interval == 0,
                    interval > 0,
            ;
            assert(before_point(z, interval, p, i));
            assert(stop.ensures((z as usize, interval as usize), false));
        }
    }
}

/// Normal mode runs fifteen tests: every test but test 11, "Block
/// Sequential", in the order of their numbers; ultra mode runs all sixteen.
pub proof fn law_modes()
    ensures
        all_kinds().len() == 16,
        forall|n: int| 1 <= n <= 16 ==> #[trigger] all_kinds()[n - 1] == kind_at(n),
        default_kinds().len() == 15,
        !default_kinds().contains(TestKind::BlockSeq),
        forall|n: int| 1 <= n <= 10 ==> #[trigger] default_kinds()[n - 1] == kind_at(n),
        forall|n: int| 12 <= n <= 16 ==> #[trigger] default_kinds()[n - 2] == kind_at(n),
{
    assert forall|i: int| 0 <= i < default_kinds().len() implies default_kinds()[i]
        != TestKind::BlockSeq by {
        if i < 10 {
            assert(default_kinds()[i] == all_kinds()[i]);
        } else {
            assert(default_kinds()[i] == all_kinds()[i + 1]);
        }
    }
    assert forall|n: int| 12 <= n <= 16 implies #[trigger] default_kinds()[n - 2] == kind_at(n) by {
        assert(default_kinds()[n - 2] == all_kinds()[n - 1]);
    }
}

} // verus!

verus! {

/// A test's verdict is a success exactly when its comparison found no
/// differing byte; with differences, a test run alone shows its error map
/// and a test run in a list names its number for `--test`.
pub proof fn law_report_success_exactly_without_errors(errors: int, listed: Option<TestKind>)
    requires
        errors >= 0,
    ensures
        (report_for(errors, listed) == TestReport::Success) == (errors == 0),
        errors > 0 && listed is None ==> report_for(errors, listed) == TestReport::FailedWithMap,
        forall|k: TestKind|
            errors > 0 && listed == Some(k) ==> report_for(errors, listed)
                == TestReport::FailedWithHint(#[trigger] number_of(k) as usize),
{
}

/// Test `n` is the `n`-th test of the list the program shows, for each `n`
/// from 1 to 16, and each test's number leads back to it.
pub proof fn law_test_numbers_follow_the_list()
    ensures
        listed_names().len() == 16,
        forall|n: int| 1 <= n <= 16 ==> #[trigger] name_of(kind_at(n)) == listed_names()[n - 1],
        forall|n: int| 1 <= n <= 16 ==> #[trigger] number_of(kind_at(n)) == n,
        forall|k: TestKind| 1 <= #[trigger] number_of(k) <= 16 && kind_at(number_of(k)) == k,
{
}

/// Once the random-value test has run to its end, every position of the
/// tested range holds, in both halves, the byte drawn for that very
/// position; the rest of each half is as it was.
pub proof fn law_random_value_writes_own_draws<F: Fn(usize, usize) -> bool>(
    stop: F,
    a0: Seq<u8>,
    b0: Seq<u8>,
    a1: Seq<u8>,
    b1: Seq<u8>,
    size: int,
)
    requires
        random_value_outcome(stop, a0, b0, a1, b1, size, false),
    ensures
        forall|k: int|
            0 <= k < size ==> a1[k] == b1[k] && #[trigger] draw_byte_for.ensures(
                (k as usize,),
                a1[k],
            ),
        unchanged_from(a0, a1, size),
        unchanged_from(b0, b1, size),
{
}

/// After a run of a single pass over `0..size` that was never stopped,
/// each position holds what the pass writes there.
proof fn lemma_single_pass_bytes(s: Seq<u8>, p: Pass, size: int, k: int)
    requires
        0 <= k < size <= s.len(),
    ensures
        apply_passes(s, one_pass(p), size)[k] == pass_byte(p, k as usize, s[k]),
{
    assert(one_pass(p).drop_last() =~= Seq::<Pass>::empty());
    assert(apply_passes(s, one_pass(p).drop_last(), size) == s);
    assert(one_pass(p).last() == p);
}

/// Once a test that draws one operand has run to its end, every byte of
/// the tested range, in both halves, is combined with the byte drawn by
/// `draw_operand` (a drawn 0 divides by 1); the sequential test writes the
/// low byte of the position plus the drawn byte.
pub proof fn law_operand_tests_use_the_drawn_byte<F: Fn(usize, usize) -> bool>(
    stop: F,
    op: Operation,
    a0: Seq<u8>,
    b0: Seq<u8>,
    a1: Seq<u8>,
    b1: Seq<u8>,
    size: int,
)
    requires
        0 <= size <= a0.len(),
        size <= b0.len(),
        size <= usize::MAX,
        operand_test_outcome(stop, op, a0, b0, a1, b1, size, false),
    ensures
        exists|d: u8|
            #[trigger] draw_operand.ensures((), d) && forall|k: int|
                0 <= k < size ==> {
                    &&& op == Operation::Xor ==> a1[k] == a0[k] ^ d && b1[k] == b0[k] ^ d
                    &&& op == Operation::Sub ==> a1[k] as int == (a0[k] - d) % 256 && b1[k] as int
                        == (b0[k] - d) % 256
                    &&& op == Operation::Mul ==> a1[k] as int == (a0[k] * d) % 256 && b1[k] as int
                        == (b0[k] * d) % 256
                    &&& op == Operation::Div ==> a1[k] == a0[k] / (if d == 0 {
                        1u8
                    } else {
                        d
                    }) && b1[k] == b0[k] / (if d == 0 {
                        1u8
                    } else {
                        d
                    })
                    &&& op == Operation::Or ==> a1[k] == a0[k] | d && b1[k] == b0[k] | d
                    &&& op == Operation::And ==> a1[k] == a0[k] & d && b1[k] == b0[k] & d
                    &&& op == Operation::Sequence ==> a1[k] as int == (k + d) % 256 && b1[k] as int
                        == (k + d) % 256
                },
{
    let d = choose|d: u8|
        #[trigger] draw_operand.ensures((), d) && operand_allowed(op, operand_from(op, d))
            && fixed_test_outcome(
            stop,
            a0,
            b0,
            a1,
            b1,
            one_pass(operand_pass(op, operand_from(op, d))),
            size,
            false,
        );
    let p = operand_pass(op, operand_from(op, d));
    assert forall|k: int| 0 <= k < size implies {
        &&& op == Operation::Xor ==> a1[k] == a0[k] ^ d && b1[k] == b0[k] ^ d
        &&& op == Operation::Sub ==> a1[k] as int == (a0[k] - d) % 256 && b1[k] as int == (b0[k]
            - d) % 256
        &&& op == Operation::Mul ==> a1[k] as int == (a0[k] * d) % 256 && b1[k] as int == (b0[k]
            * d) % 256
        &&& op == Operation::Div ==> a1[k] == a0[k] / (if d == 0 {
            1u8
        } else {
            d
        }) && b1[k] == b0[k] / (if d == 0 {
            1u8
        } else {
            d
        })
        &&& op == Operation::Or ==> a1[k] == a0[k] | d && b1[k] == b0[k] | d
        &&& op == Operation::And ==> a1[k] == a0[k] & d && b1[k] == b0[k] & d
        &&& op == Operation::Sequence ==> a1[k] as int == (k + d) % 256 && b1[k] as int == (k + d)
            % 256
    } by {
        lemma_single_pass_bytes(a0, p, size, k);
        lemma_single_pass_bytes(b0, p, size, k);
        let x = a0[k];
        let y = b0[k];
        if op == Operation::Sub {
            assert(x.wrapping_sub(d) as int == (x - d) % 256) by (bit_vector);
            assert(y.wrapping_sub(d) as int == (y - d) % 256) by (bit_vector);
        }
        if op == Operation::Mul {
            assert(x.wrapping_mul(d) as int == (x * d) % 256) by (bit_vector);
            assert(y.wrapping_mul(d) as int == (y * d) % 256) by (bit_vector);
        }
        if op == Operation::Sequence {
            let ku = k as u64;
            let du = d as u64;
            assert((ku.wrapping_add(du) % 256) as u8 as int == (ku + du) % 256) by (bit_vector);
        }
    }
}

} // verus!
