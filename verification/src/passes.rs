//! The model of a test: a list of passes, each of which writes every byte
//! of the tested range in both halves, front to back; and the one routine
//! that runs such a list, polling the stop flag at regular checkpoints.

use vstd::prelude::*;

verus! {

/// What one pass writes at a position.
#[derive(Clone, Copy, PartialEq, Eq, Structural, Debug)]
pub enum Pass {
    /// Every byte gets the same value.
    Solid(u8),
    /// Even positions get the value, odd positions its bitwise complement.
    Alternating(u8),
    /// Position `i` gets the low byte of `i` XOR 0xFF.
    IndexComplement,
    /// Position `i` gets the low byte of `i + q`.
    Sequence(u8),
    /// Each byte is XORed with the operand.
    Xor(u8),
    /// The operand is subtracted from each byte, modulo 256.
    Sub(u8),
    /// Each byte is multiplied by the operand, modulo 256.
    Mul(u8),
    /// Each byte is divided by the operand (which is never zero).
    Div(u8),
    /// Each byte is ORed with the operand.
    Or(u8),
    /// Each byte is ANDed with the operand.
    And(u8),
}

impl Pass {
    /// A pass can run: a divisor is never zero.
    pub open spec fn wf(self) -> bool {
        match self {
            Pass::Div(q) => q != 0,
            _ => true,
        }
    }

    /// Whether the byte written depends on the byte that was there before.
    pub open spec fn reads_old(self) -> bool {
        match self {
            Pass::Xor(_) | Pass::Sub(_) | Pass::Mul(_) | Pass::Div(_) | Pass::Or(_) | Pass::And(
                _,
            ) => true,
            _ => false,
        }
    }
}

/// The byte that pass `p` writes at position `i` where `old` stood.
pub open spec fn pass_byte(p: Pass, i: usize, old: u8) -> u8 {
    match p {
        Pass::Solid(v) => v,
        Pass::Alternating(q) => if i % 2 == 0 {
            q
        } else {
            !q
        },
        Pass::IndexComplement => ((i as u64 ^ 255u64) % 256) as u8,
        Pass::Sequence(q) => ((i as u64).wrapping_add(q as u64) % 256) as u8,
        Pass::Xor(q) => old ^ q,
        Pass::Sub(q) => old.wrapping_sub(q),
        Pass::Mul(q) => old.wrapping_mul(q),
        Pass::Div(q) => old / q,
        Pass::Or(q) => old | q,
        Pass::And(q) => old & q,
    }
}

/// The buffer after pass `p` has written positions `0..n` of `s`.
pub open spec fn apply_pass(s: Seq<u8>, p: Pass, n: int) -> Seq<u8> {
    Seq::new(s.len(), |k: int| if k < n { pass_byte(p, k as usize, s[k]) } else { s[k] })
}

/// The buffer after each pass of `ps`, in order, has written positions `0..n`.
pub open spec fn apply_passes(s: Seq<u8>, ps: Seq<Pass>, n: int) -> Seq<u8>
    decreases ps.len(),
{
    if ps.len() == 0 {
        s
    } else {
        apply_pass(apply_passes(s, ps.drop_last(), n), ps.last(), n)
    }
}

/// A place where a run may stop: pass `p` has just written position `i`,
/// and `i` is a checkpoint (a positive multiple of the interval).
pub open spec fn is_checkpoint(i: int, interval: int) -> bool {
    0 < i && i % interval == 0
}

/// `after` is `before` once passes `0..p` have run over `0..size` and pass
/// `p` has written positions `0..=i`.
pub open spec fn stopped_state(before: Seq<u8>, ps: Seq<Pass>, size: int, p: int, i: int) -> Seq<
    u8,
> {
    apply_pass(apply_passes(before, ps.take(p), size), ps[p], i + 1)
}

/// Where a run of `ps` over `0..size` may stop early.
pub open spec fn valid_stop(ps: Seq<Pass>, size: int, interval: int, p: int, i: int) -> bool {
    0 <= p < ps.len() && i < size && is_checkpoint(i, interval)
}

/// Whether pass `p2`, position `i2` comes before pass `p`, position `i`.
pub open spec fn before_point(p2: int, i2: int, p: int, i: int) -> bool {
    p2 < p || (p2 == p && i2 < i)
}

/// Every checkpoint of a run of `n_passes` passes over `0..size` that comes
/// before pass `p`, position `i`, was polled with `stop` and the answer was
/// "go on" (`false`).
pub open spec fn polled_false_before<F: Fn(usize, usize) -> bool>(
    stop: F,
    n_passes: int,
    size: int,
    interval: int,
    p: int,
    i: int,
) -> bool {
    forall|p2: int, i2: int|
        0 <= p2 < n_passes && i2 < size && is_checkpoint(i2, interval) && before_point(p2, i2, p, i)
            ==> #[trigger] stop.ensures((p2 as usize, i2 as usize), false)
}

/// The halves after a run of `ps` over `0..size` that asks `stop`, at every
/// checkpoint (pass `p`, position `i`), whether to stop there. Either every
/// checkpoint was answered `false` and every pass was written in full; or
/// the run stopped at the first checkpoint answered `true`, the same one in
/// both halves, right after writing it.
pub open spec fn run_outcome<F: Fn(usize, usize) -> bool>(
    stop: F,
    a_before: Seq<u8>,
    b_before: Seq<u8>,
    a_after: Seq<u8>,
    b_after: Seq<u8>,
    ps: Seq<Pass>,
    size: int,
    interval: int,
    stopped: bool,
) -> bool {
    if !stopped {
        &&& a_after == apply_passes(a_before, ps, size)
        &&& b_after == apply_passes(b_before, ps, size)
        &&& polled_false_before(stop, ps.len() as int, size, interval, ps.len() as int, 0)
    } else {
        exists|p: int, i: int|
            #[trigger] valid_stop(ps, size, interval, p, i) && a_after == stopped_state(
                a_before,
                ps,
                size,
                p,
                i,
            ) && b_after == stopped_state(b_before, ps, size, p, i) && stop.ensures(
                (p as usize, i as usize),
                true,
            ) && polled_false_before(stop, ps.len() as int, size, interval, p, i)
    }
}

/// Polling moves on by one position: where every checkpoint before pass
/// `p`, position `i`, was answered "go on", and position `i` is no
/// checkpoint or was answered "go on" too, every checkpoint before position
/// `i + 1` was.
pub proof fn lemma_poll_step<F: Fn(usize, usize) -> bool>(
    stop: F,
    n_passes: int,
    size: int,
    interval: int,
    p: int,
    i: int,
)
    requires
        polled_false_before(stop, n_passes, size, interval, p, i),
        0 <= p < n_passes && i < size && is_checkpoint(i, interval) ==> stop.ensures(
            (p as usize, i as usize),
            false,
        ),
    ensures
        polled_false_before(stop, n_passes, size, interval, p, i + 1),
{
    assert forall|p2: int, i2: int|
        0 <= p2 < n_passes && i2 < size && is_checkpoint(i2, interval) && before_point(
            p2,
            i2,
            p,
            i + 1,
        ) implies #[trigger] stop.ensures((p2 as usize, i2 as usize), false) by {
        if !(p2 == p && i2 == i) {
            assert(before_point(p2, i2, p, i));
        }
    }
}

/// Once pass `p` has gone over the whole range with every checkpoint
/// answered "go on", the next pass starts with nothing left to answer.
pub proof fn lemma_poll_next_pass<F: Fn(usize, usize) -> bool>(
    stop: F,
    n_passes: int,
    size: int,
    interval: int,
    p: int,
)
    requires
        polled_false_before(stop, n_passes, size, interval, p, size),
    ensures
        polled_false_before(stop, n_passes, size, interval, p + 1, 0),
{
    assert forall|p2: int, i2: int|
        0 <= p2 < n_passes && i2 < size && is_checkpoint(i2, interval) && before_point(
            p2,
            i2,
            p + 1,
            0,
        ) implies #[trigger] stop.ensures((p2 as usize, i2 as usize), false) by {
        assert(before_point(p2, i2, p, size));
    }
}

/// How often, in bytes, a pass polls the stop flag: a hundredth of the
/// range, at most 128 MiB and at least one byte.
pub open spec fn interval_for(size: int) -> int {
    let hundredth = size / 100;
    let capped = if hundredth < 134217728 {
        hundredth
    } else {
        134217728
    };
    if capped < 1 {
        1
    } else {
        capped
    }
}

/// The polling interval for a range of `size` bytes.
pub fn update_interval(size: usize) -> (r: usize)
    ensures
        r == interval_for(size as int),
        r >= 1,
{
    let hundredth = size / 100;
    let capped = if hundredth < 134217728 {
        hundredth
    } else {
        134217728
    };
    if capped < 1 {
        1
    } else {
        capped
    }
}

/// The byte that pass `p` writes at position `i` where `old` stood.
pub fn pass_byte_at(p: Pass, i: usize, old: u8) -> (r: u8)
    requires
        p.wf(),
    ensures
        r == pass_byte(p, i, old),
{
    match p {
        Pass::Solid(v) => v,
        Pass::Alternating(q) => if i % 2 == 0 {
            q
        } else {
            !q
        },
        Pass::IndexComplement => ((i as u64 ^ 255u64) % 256) as u8,
        Pass::Sequence(q) => ((i as u64).wrapping_add(q as u64) % 256) as u8,
        Pass::Xor(q) => old ^ q,
        Pass::Sub(q) => old.wrapping_sub(q),
        Pass::Mul(q) => old.wrapping_mul(q),
        Pass::Div(q) => old / q,
        Pass::Or(q) => old | q,
        Pass::And(q) => old & q,
    }
}

/// A pass keeps the length of the buffer.
pub proof fn lemma_apply_passes_len(s: Seq<u8>, ps: Seq<Pass>, n: int)
    ensures
        apply_passes(s, ps, n).len() == s.len(),
    decreases ps.len(),
{
    if ps.len() > 0 {
        lemma_apply_passes_len(s, ps.drop_last(), n);
    }
}

/// Runs the passes of `passes`, in order, over positions `0..size` of both
/// halves: each pass writes each position of `bufa` and then of `bufb`,
/// front to back. After writing a position that is a checkpoint of the
/// polling interval, it asks `stop` (with the pass and the position)
/// whether to stop, and returns `true` at once if so. Returns `false` once
/// every pass is done.
pub fn run_passes<F: Fn(usize, usize) -> bool>(
    bufa: &mut [u8],
    bufb: &mut [u8],
    size: usize,
    passes: &Vec<Pass>,
    stop: &F,
) -> (stopped: bool)
    requires
        size <= old(bufa)@.len(),
        size <= old(bufb)@.len(),
        forall|k: int| 0 <= k < passes@.len() ==> (#[trigger] passes@[k]).wf(),
        forall|p: usize, i: usize| #[trigger] stop.requires((p, i)),
    ensures
        final(bufa)@.len() == old(bufa)@.len(),
        final(bufb)@.len() == old(bufb)@.len(),
        run_outcome(
            *stop,
            old(bufa)@,
            old(bufb)@,
            final(bufa)@,
            final(bufb)@,
            passes@,
            size as int,
            interval_for(size as int),
            stopped,
        ),
{
    let interval = update_interval(size);
    let ghost a0 = bufa@;
    let ghost b0 = bufb@;
    let ghost ps = passes@;
    let n = passes.len();
    let mut p: usize = 0;
    while p < n
        invariant
            n == ps.len(),
            ps == passes@,
            a0 == old(bufa)@,
            b0 == old(bufb)@,
            0 <= p <= n,
            size <= a0.len(),
            size <= b0.len(),
            interval == interval_for(size as int),
            interval >= 1,
            forall|k: int| 0 <= k < ps.len() ==> (#[trigger] ps[k]).wf(),
            forall|pp: usize, ii: usize| #[trigger] stop.requires((pp, ii)),
            bufa@ == apply_passes(a0, ps.take(p as int), size as int),
            bufb@ == apply_passes(b0, ps.take(p as int), size as int),
            polled_false_before(*stop, n as int, size as int, interval as int, p as int, 0),
        decreases n - p,
    {
        let pass = passes[p];
        let ghost base_a = bufa@;
        let ghost base_b = bufb@;
        proof {
            lemma_apply_passes_len(a0, ps.take(p as int), size as int);
            lemma_apply_passes_len(b0, ps.take(p as int), size as int);
            assert(base_a =~= apply_pass(base_a, pass, 0));
            assert(base_b =~= apply_pass(base_b, pass, 0));
        }
        let mut i: usize = 0;
        while i < size
            invariant
                n == ps.len(),
                ps == passes@,
                a0 == old(bufa)@,
                b0 == old(bufb)@,
                0 <= p < n,
                pass == ps[p as int],
                pass.wf(),
                0 <= i <= size,
                size <= base_a.len(),
                size <= base_b.len(),
                base_a.len() == a0.len(),
                base_b.len() == b0.len(),
                interval == interval_for(size as int),
                interval >= 1,
                forall|pp: usize, ii: usize| #[trigger] stop.requires((pp, ii)),
                base_a == apply_passes(a0, ps.take(p as int), size as int),
                base_b == apply_passes(b0, ps.take(p as int), size as int),
                bufa@ == apply_pass(base_a, pass, i as int),
                bufb@ == apply_pass(base_b, pass, i as int),
                polled_false_before(*stop, n as int, size as int, interval as int, p as int, i as int),
            decreases size - i,
        {
            let va = pass_byte_at(pass, i, bufa[i]);
            bufa[i] = va;
            let vb = pass_byte_at(pass, i, bufb[i]);
            bufb[i] = vb;
            proof {
                assert(bufa@ =~= apply_pass(base_a, pass, i + 1));
                assert(bufb@ =~= apply_pass(base_b, pass, i + 1));
            }
            if i % interval == 0 && i > 0 {
                let asked = stop(p, i);
                if asked {
                    proof {
                        assert(valid_stop(ps, size as int, interval as int, p as int, i as int));
                        assert(bufa@ == stopped_state(a0, ps, size as int, p as int, i as int));
                        assert(bufb@ == stopped_state(b0, ps, size as int, p as int, i as int));
                        assert(bufa@.len() == a0.len());
                        assert(bufb@.len() == b0.len());
                    }
                    return true;
                }
                proof {
                    assert(((p as int) as usize, (i as int) as usize) == (p, i));
                    lemma_poll_step(*stop, n as int, size as int, interval as int, p as int, i as int);
                }
            } else {
                proof {
                    lemma_poll_step(*stop, n as int, size as int, interval as int, p as int, i as int);
                }
            }
            i = i + 1;
        }
        proof {
            assert(ps.take(p + 1).drop_last() =~= ps.take(p as int));
            assert(ps.take(p + 1).last() == pass);
            lemma_poll_next_pass(*stop, n as int, size as int, interval as int, p as int);
        }
        p = p + 1;
    }
    proof {
        assert(ps.take(n as int) =~= ps);
        lemma_apply_passes_len(a0, ps, size as int);
        lemma_apply_passes_len(b0, ps, size as int);
    }
    false
}

} // verus!

verus! {

/// Whether some pass of `ps` writes its bytes without reading the old ones.
pub open spec fn has_overwrite(ps: Seq<Pass>) -> bool {
    exists|j: int| 0 <= j < ps.len() && !(#[trigger] ps[j]).reads_old()
}

/// A run over `0..n` leaves every byte from `n` on as it was.
pub proof fn lemma_passes_leave_rest(s: Seq<u8>, ps: Seq<Pass>, n: int, k: int)
    requires
        0 <= n <= k < s.len(),
    ensures
        apply_passes(s, ps, n)[k] == s[k],
    decreases ps.len(),
{
    if ps.len() > 0 {
        lemma_passes_leave_rest(s, ps.drop_last(), n, k);
        lemma_apply_passes_len(s, ps.drop_last(), n);
    }
}

/// Passes keep equal bytes equal: where the two halves agree before a run,
/// they agree after it.
pub proof fn lemma_passes_keep_equal(a: Seq<u8>, b: Seq<u8>, ps: Seq<Pass>, n: int, k: int)
    requires
        0 <= k < n,
        k < a.len(),
        k < b.len(),
        a[k] == b[k],
    ensures
        apply_passes(a, ps, n)[k] == apply_passes(b, ps, n)[k],
    decreases ps.len(),
{
    if ps.len() > 0 {
        lemma_passes_keep_equal(a, b, ps.drop_last(), n, k);
        lemma_apply_passes_len(a, ps.drop_last(), n);
        lemma_apply_passes_len(b, ps.drop_last(), n);
    }
}

/// Once a pass that overwrites has run, the two halves agree over the run's
/// range, whatever they held before.
pub proof fn lemma_overwrite_makes_equal(a: Seq<u8>, b: Seq<u8>, ps: Seq<Pass>, n: int, k: int)
    requires
        0 <= k < n,
        k < a.len(),
        k < b.len(),
        has_overwrite(ps),
    ensures
        apply_passes(a, ps, n)[k] == apply_passes(b, ps, n)[k],
    decreases ps.len(),
{
    lemma_apply_passes_len(a, ps.drop_last(), n);
    lemma_apply_passes_len(b, ps.drop_last(), n);
    if !ps.last().reads_old() {
    } else {
        let j = choose|j: int| 0 <= j < ps.len() && !(#[trigger] ps[j]).reads_old();
        assert(ps.drop_last()[j] == ps[j]);
        lemma_overwrite_makes_equal(a, b, ps.drop_last(), n, k);
    }
}

} // verus!
