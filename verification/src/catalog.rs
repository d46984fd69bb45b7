//! The sixteen tests by number and name, which of them each mode runs, and
//! the dispatch from a test to the routine that runs it.

use vstd::prelude::*;

use crate::fixed_tests::{
    bit_flip_passes, bit_spread_passes, block_sequential_passes, checkerboard_passes,
    fixed_test_outcome, solid_bits_passes, standard_passes, test_bitflip_comparison,
    test_bitspread_comparison, test_blockseq_comparison, test_checkerboard_comparison,
    test_solidbits_comparison, test_standard, test_walkbits0_comparison,
    test_walkbits1_comparison, walking_bit_clear_passes, walking_bit_set_passes,
};
use crate::operand_tests::{
    operand_test_outcome, random_value_outcome, Operation, test_and_comparison, test_div_comparison, test_mul_comparison,
    test_or_comparison, test_random_value, test_seqinc_comparison, test_sub_comparison,
    test_xor_comparison,
};
use crate::passes::Pass;

verus! {

/// The sixteen tests, in the order of their numbers 1 to 16.
#[derive(Clone, Copy, PartialEq, Eq, Structural, Debug)]
pub enum TestKind {
    Standard,
    RandomValue,
    Xor,
    Sub,
    Mul,
    Div,
    Or,
    And,
    SeqInc,
    SolidBits,
    BlockSeq,
    Checkerboard,
    BitSpread,
    BitFlip,
    WalkingOnes,
    WalkingZeroes,
}

/// The number of tests.
pub const TEST_COUNT: usize = 16;

/// The test with number `n`, for `n` in `1..=16`.
pub open spec fn kind_at(n: int) -> TestKind {
    if n == 1 {
        TestKind::Standard
    } else if n == 2 {
        TestKind::RandomValue
    } else if n == 3 {
        TestKind::Xor
    } else if n == 4 {
        TestKind::Sub
    } else if n == 5 {
        TestKind::Mul
    } else if n == 6 {
        TestKind::Div
    } else if n == 7 {
        TestKind::Or
    } else if n == 8 {
        TestKind::And
    } else if n == 9 {
        TestKind::SeqInc
    } else if n == 10 {
        TestKind::SolidBits
    } else if n == 11 {
        TestKind::BlockSeq
    } else if n == 12 {
        TestKind::Checkerboard
    } else if n == 13 {
        TestKind::BitSpread
    } else if n == 14 {
        TestKind::BitFlip
    } else if n == 15 {
        TestKind::WalkingOnes
    } else {
        TestKind::WalkingZeroes
    }
}

/// The number of a test, from 1 to 16.
pub open spec fn number_of(k: TestKind) -> int {
    match k {
        TestKind::Standard => 1,
        TestKind::RandomValue => 2,
        TestKind::Xor => 3,
        TestKind::Sub => 4,
        TestKind::Mul => 5,
        TestKind::Div => 6,
        TestKind::Or => 7,
        TestKind::And => 8,
        TestKind::SeqInc => 9,
        TestKind::SolidBits => 10,
        TestKind::BlockSeq => 11,
        TestKind::Checkerboard => 12,
        TestKind::BitSpread => 13,
        TestKind::BitFlip => 14,
        TestKind::WalkingOnes => 15,
        TestKind::WalkingZeroes => 16,
    }
}

/// The name under which a test is listed.
pub open spec fn name_of(k: TestKind) -> Seq<char> {
    match k {
        TestKind::Standard => "Standard Fill Test"@,
        TestKind::RandomValue => "Random Value"@,
        TestKind::Xor => "Compare XOR"@,
        TestKind::Sub => "Compare SUB"@,
        TestKind::Mul => "Compare MUL"@,
        TestKind::Div => "Compare DIV"@,
        TestKind::Or => "Compare OR"@,
        TestKind::And => "Compare AND"@,
        TestKind::SeqInc => "Sequential Increment"@,
        TestKind::SolidBits => "Solid Bits"@,
        TestKind::BlockSeq => "Block Sequential"@,
        TestKind::Checkerboard => "Checkerboard"@,
        TestKind::BitSpread => "Bit Spread"@,
        TestKind::BitFlip => "Bit Flip"@,
        TestKind::WalkingOnes => "Walking Ones"@,
        TestKind::WalkingZeroes => "Walking Zeroes"@,
    }
}

/// The tests as the program lists them, by number: entry `n - 1` is the
/// name of test `n`.
pub open spec fn listed_names() -> Seq<Seq<char>> {
    seq![
        "Standard Fill Test"@,
        "Random Value"@,
        "Compare XOR"@,
        "Compare SUB"@,
        "Compare MUL"@,
        "Compare DIV"@,
        "Compare OR"@,
        "Compare AND"@,
        "Sequential Increment"@,
        "Solid Bits"@,
        "Block Sequential"@,
        "Checkerboard"@,
        "Bit Spread"@,
        "Bit Flip"@,
        "Walking Ones"@,
        "Walking Zeroes"@,
    ]
}

/// All sixteen tests, in order (ultra mode).
pub open spec fn all_kinds() -> Seq<TestKind> {
    Seq::new(16, |i: int| kind_at(i + 1))
}

/// The tests of normal mode: all but test 11, "Block Sequential".
pub open spec fn default_kinds() -> Seq<TestKind> {
    all_kinds().remove(10)
}

/// The number of a test, from 1 to 16.
pub fn test_number(k: TestKind) -> (n: usize)
    ensures
        n == number_of(k),
        1 <= n <= 16,
        kind_at(n as int) == k,
        name_of(k) == listed_names()[n - 1],
{
    match k {
        TestKind::Standard => 1,
        TestKind::RandomValue => 2,
        TestKind::Xor => 3,
        TestKind::Sub => 4,
        TestKind::Mul => 5,
        TestKind::Div => 6,
        TestKind::Or => 7,
        TestKind::And => 8,
        TestKind::SeqInc => 9,
        TestKind::SolidBits => 10,
        TestKind::BlockSeq => 11,
        TestKind::Checkerboard => 12,
        TestKind::BitSpread => 13,
        TestKind::BitFlip => 14,
        TestKind::WalkingOnes => 15,
        TestKind::WalkingZeroes => 16,
    }
}

/// The test with number `n`.
pub fn test_with_number(n: usize) -> (k: TestKind)
    requires
        1 <= n <= 16,
    ensures
        k == kind_at(n as int),
        number_of(k) == n,
        name_of(k) == listed_names()[n - 1],
{
    if n == 1 {
        TestKind::Standard
    } else if n == 2 {
        TestKind::RandomValue
    } else if n == 3 {
        TestKind::Xor
    } else if n == 4 {
        TestKind::Sub
    } else if n == 5 {
        TestKind::Mul
    } else if n == 6 {
        TestKind::Div
    } else if n == 7 {
        TestKind::Or
    } else if n == 8 {
        TestKind::And
    } else if n == 9 {
        TestKind::SeqInc
    } else if n == 10 {
        TestKind::SolidBits
    } else if n == 11 {
        TestKind::BlockSeq
    } else if n == 12 {
        TestKind::Checkerboard
    } else if n == 13 {
        TestKind::BitSpread
    } else if n == 14 {
        TestKind::BitFlip
    } else if n == 15 {
        TestKind::WalkingOnes
    } else {
        TestKind::WalkingZeroes
    }
}

/// The name under which a test is listed.
pub fn test_name(k: TestKind) -> (name: &'static str)
    ensures
        name@ == name_of(k),
{
    match k {
        TestKind::Standard => "Standard Fill Test",
        TestKind::RandomValue => "Random Value",
        TestKind::Xor => "Compare XOR",
        TestKind::Sub => "Compare SUB",
        TestKind::Mul => "Compare MUL",
        TestKind::Div => "Compare DIV",
        TestKind::Or => "Compare OR",
        TestKind::And => "Compare AND",
        TestKind::SeqInc => "Sequential Increment",
        TestKind::SolidBits => "Solid Bits",
        TestKind::BlockSeq => "Block Sequential",
        TestKind::Checkerboard => "Checkerboard",
        TestKind::BitSpread => "Bit Spread",
        TestKind::BitFlip => "Bit Flip",
        TestKind::WalkingOnes => "Walking Ones",
        TestKind::WalkingZeroes => "Walking Zeroes",
    }
}

/// All sixteen tests, in order.
pub fn all_tests() -> (v: Vec<TestKind>)
    ensures
        v@ == all_kinds(),
{
    let mut v: Vec<TestKind> = Vec::new();
    let mut n: usize = 1;
    while n <= TEST_COUNT
        invariant
            1 <= n <= 17,
            v@ == all_kinds().take(n - 1),
        decreases 17 - n,
    {
        v.push(test_with_number(n));
        assert(v@ =~= all_kinds().take(n as int));
        n = n + 1;
    }
    assert(v@ =~= all_kinds());
    v
}

/// The tests of normal mode: all but test 11, "Block Sequential".
pub fn default_tests() -> (v: Vec<TestKind>)
    ensures
        v@ == default_kinds(),
{
    let mut v: Vec<TestKind> = Vec::new();
    let mut n: usize = 1;
    while n <= TEST_COUNT
        invariant
            1 <= n <= 17,
            n <= 11 ==> v@ == all_kinds().take(n - 1),
            n > 11 ==> v@ == all_kinds().take(10) + all_kinds().subrange(11, n - 1),
        decreases 17 - n,
    {
        if n != 11 {
            v.push(test_with_number(n));
        }
        proof {
            if n < 11 {
                assert(v@ =~= all_kinds().take(n as int));
            } else if n == 11 {
                assert(v@ =~= all_kinds().take(10) + all_kinds().subrange(11, 11));
            } else {
                assert(v@ =~= all_kinds().take(10) + all_kinds().subrange(11, n as int));
            }
        }
        n = n + 1;
    }
    assert(v@ =~= default_kinds());
    v
}

/// Which tests a run performs: test `test_index` alone where it is set
/// (1 to 16), else all sixteen in ultra mode, else those of normal mode.
pub open spec fn selection(test_index: int, ultra: bool) -> Seq<TestKind> {
    if test_index > 0 {
        seq![kind_at(test_index)]
    } else if ultra {
        all_kinds()
    } else {
        default_kinds()
    }
}

/// The tests that a run performs, in order.
pub fn select_tests(test_index: usize, ultra: bool) -> (v: Vec<TestKind>)
    requires
        test_index <= 16,
    ensures
        v@ == selection(test_index as int, ultra),
{
    if test_index > 0 {
        let mut v: Vec<TestKind> = Vec::new();
        v.push(test_with_number(test_index));
        assert(v@ =~= selection(test_index as int, ultra));
        v
    } else if ultra {
        all_tests()
    } else {
        default_tests()
    }
}

/// Whether a test is listed as one of normal mode.
pub fn is_default_test(k: TestKind) -> (b: bool)
    ensures
        b == default_kinds().contains(k),
        b == (k != TestKind::BlockSeq),
{
    proof {
        assert(all_kinds()[number_of(k) - 1] == k);
        if k != TestKind::BlockSeq {
            let i = number_of(k) - 1;
            if i < 10 {
                assert(default_kinds()[i] == k);
            } else {
                assert(default_kinds()[i - 1] == k);
            }
        } else {
            assert forall|i: int| 0 <= i < default_kinds().len() implies default_kinds()[i]
                != TestKind::BlockSeq by {
                if i < 10 {
                    assert(default_kinds()[i] == all_kinds()[i]);
                } else {
                    assert(default_kinds()[i] == all_kinds()[i + 1]);
                }
            }
        }
    }
    match k {
        TestKind::BlockSeq => false,
        _ => true,
    }
}

/// What a run of test `k` over positions `0..size` of both halves does:
/// what the routine of that test states.
pub open spec fn test_outcome<F: Fn(usize, usize) -> bool>(
    k: TestKind,
    stop: F,
    a0: Seq<u8>,
    b0: Seq<u8>,
    a1: Seq<u8>,
    b1: Seq<u8>,
    size: int,
    stopped: bool,
) -> bool {
    match k {
        TestKind::Standard => fixed_test_outcome(stop, a0, b0, a1, b1, standard_passes(), size, stopped),
        TestKind::RandomValue => random_value_outcome(stop, a0, b0, a1, b1, size, stopped),
        TestKind::Xor => operand_test_outcome(stop, Operation::Xor, a0, b0, a1, b1, size, stopped),
        TestKind::Sub => operand_test_outcome(stop, Operation::Sub, a0, b0, a1, b1, size, stopped),
        TestKind::Mul => operand_test_outcome(stop, Operation::Mul, a0, b0, a1, b1, size, stopped),
        TestKind::Div => operand_test_outcome(stop, Operation::Div, a0, b0, a1, b1, size, stopped),
        TestKind::Or => operand_test_outcome(stop, Operation::Or, a0, b0, a1, b1, size, stopped),
        TestKind::And => operand_test_outcome(stop, Operation::And, a0, b0, a1, b1, size, stopped),
        TestKind::SeqInc => operand_test_outcome(stop, Operation::Sequence, a0, b0, a1, b1, size, stopped),
        TestKind::SolidBits => fixed_test_outcome(stop, a0,
            b0,
            a1,
            b1,
            solid_bits_passes(),
            size,
            stopped,
        ),
        TestKind::BlockSeq => fixed_test_outcome(stop, a0,
            b0,
            a1,
            b1,
            block_sequential_passes(),
            size,
            stopped,
        ),
        TestKind::Checkerboard => fixed_test_outcome(stop, a0,
            b0,
            a1,
            b1,
            checkerboard_passes(),
            size,
            stopped,
        ),
        TestKind::BitSpread => fixed_test_outcome(stop, a0,
            b0,
            a1,
            b1,
            bit_spread_passes(),
            size,
            stopped,
        ),
        TestKind::BitFlip => fixed_test_outcome(stop, a0, b0, a1, b1, bit_flip_passes(), size, stopped),
        TestKind::WalkingOnes => fixed_test_outcome(stop, a0,
            b0,
            a1,
            b1,
            walking_bit_clear_passes(),
            size,
            stopped,
        ),
        TestKind::WalkingZeroes => fixed_test_outcome(stop, a0,
            b0,
            a1,
            b1,
            walking_bit_set_passes(),
            size,
            stopped,
        ),
    }
}

/// Runs test `k` over positions `0..size` of both halves. Returns whether
/// it stopped at the stop flag.
pub fn run_test_kind<F: Fn(usize, usize) -> bool>(
    k: TestKind,
    bufa: &mut [u8],
    bufb: &mut [u8],
    size: usize,
    stop: &F,
) -> (stopped: bool)
    requires
        size <= old(bufa)@.len(),
        size <= old(bufb)@.len(),
        forall|p: usize, i: usize| #[trigger] stop.requires((p, i)),
    ensures
        final(bufa)@.len() == old(bufa)@.len(),
        final(bufb)@.len() == old(bufb)@.len(),
        test_outcome(k, *stop, old(bufa)@, old(bufb)@, final(bufa)@, final(bufb)@, size as int, stopped),
{
    match k {
        TestKind::Standard => test_standard(bufa, bufb, size, stop),
        TestKind::RandomValue => test_random_value(bufa, bufb, size, stop),
        TestKind::Xor => test_xor_comparison(bufa, bufb, size, stop),
        TestKind::Sub => test_sub_comparison(bufa, bufb, size, stop),
        TestKind::Mul => test_mul_comparison(bufa, bufb, size, stop),
        TestKind::Div => test_div_comparison(bufa, bufb, size, stop),
        TestKind::Or => test_or_comparison(bufa, bufb, size, stop),
        TestKind::And => test_and_comparison(bufa, bufb, size, stop),
        TestKind::SeqInc => test_seqinc_comparison(bufa, bufb, size, stop),
        TestKind::SolidBits => test_solidbits_comparison(bufa, bufb, size, stop),
        TestKind::BlockSeq => test_blockseq_comparison(bufa, bufb, size, stop),
        TestKind::Checkerboard => test_checkerboard_comparison(bufa, bufb, size, stop),
        TestKind::BitSpread => test_bitspread_comparison(bufa, bufb, size, stop),
        TestKind::BitFlip => test_bitflip_comparison(bufa, bufb, size, stop),
        TestKind::WalkingOnes => test_walkbits1_comparison(bufa, bufb, size, stop),
        TestKind::WalkingZeroes => test_walkbits0_comparison(bufa, bufb, size, stop),
    }
}

} // verus!

verus! {

/// The length of each tested half of a buffer of `len` bytes.
pub open spec fn half_of(len: nat) -> int {
    len as int / 2
}

/// Splits `buffer` into two halves of `len / 2` bytes (the second takes
/// the odd byte, if any) and runs test `k` over the whole first half and
/// the same range of the second. Returns whether it stopped at the flag.
pub fn run_on_halves<F: Fn(usize, usize) -> bool>(k: TestKind, buffer: &mut [u8], stop: &F) -> (stopped:
    bool)
    requires
        forall|p: usize, i: usize| #[trigger] stop.requires((p, i)),
    ensures
        final(buffer)@.len() == old(buffer)@.len(),
        test_outcome(
            k,
            *stop,
            old(buffer)@.take(half_of(old(buffer)@.len())),
            old(buffer)@.skip(half_of(old(buffer)@.len())),
            final(buffer)@.take(half_of(old(buffer)@.len())),
            final(buffer)@.skip(half_of(old(buffer)@.len())),
            half_of(old(buffer)@.len()),
            stopped,
        ),
{
    let halflen = buffer.len() / 2;
    let ghost whole = buffer@;
    let (first_half, second_half) = buffer.split_at_mut(halflen);
    assert(first_half@ =~= whole.take(halflen as int));
    assert(second_half@ =~= whole.skip(halflen as int));
    let stopped = run_test_kind(k, first_half, second_half, halflen, stop);
    assert(buffer@.take(halflen as int) =~= first_half@);
    assert(buffer@.skip(halflen as int) =~= second_half@);
    stopped
}

} // verus!
