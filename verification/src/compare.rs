//! The verification phase: the two halves compared byte by byte, the
//! differing positions recorded, and the map that summarises them.

use vstd::prelude::*;

use crate::passes::is_checkpoint;
use crate::run::record_result;

verus! {

/// The positions `k` in `lo..hi` where `a` and `b` differ, in increasing order.
pub open spec fn mismatch_positions(a: Seq<u8>, b: Seq<u8>, lo: int, hi: int) -> Seq<usize>
    decreases hi - lo,
{
    if hi <= lo {
        Seq::empty()
    } else {
        let rest = mismatch_positions(a, b, lo, hi - 1);
        if a[hi - 1] != b[hi - 1] {
            rest.push((hi - 1) as usize)
        } else {
            rest
        }
    }
}

/// `errs` is `old` with every position of `lo..hi` where `a` and `b`
/// differ set to `true`, and nothing else changed.
pub open spec fn marked_errors(
    old_errs: Seq<bool>,
    errs: Seq<bool>,
    a: Seq<u8>,
    b: Seq<u8>,
    lo: int,
    hi: int,
) -> bool {
    &&& errs.len() == old_errs.len()
    &&& forall|k: int|
        0 <= k < errs.len() ==> #[trigger] errs[k] == (old_errs[k] || (lo <= k < hi && a[k]
            != b[k]))
}

/// Whether `a` and `b` differ somewhere in `0..n`.
pub open spec fn differ_somewhere(a: Seq<u8>, b: Seq<u8>, n: int) -> bool {
    exists|k: int| 0 <= k < n && #[trigger] a[k] != b[k]
}

/// Compares positions `0..size` of the two buffers, sets `errors[i]` for
/// each position `i` where they differ, and returns whether any does.
pub fn compare_regions(bufa: &[u8], bufb: &[u8], size: usize, errors: &mut Vec<bool>) -> (has_error:
    bool)
    requires
        size <= bufa@.len(),
        size <= bufb@.len(),
        size <= old(errors)@.len(),
    ensures
        marked_errors(old(errors)@, final(errors)@, bufa@, bufb@, 0, size as int),
        has_error == differ_somewhere(bufa@, bufb@, size as int),
{
    let mut has_error = false;
    let mut i: usize = 0;
    while i < size
        invariant
            0 <= i <= size,
            size <= bufa@.len(),
            size <= bufb@.len(),
            size <= old(errors)@.len(),
            marked_errors(old(errors)@, errors@, bufa@, bufb@, 0, i as int),
            has_error == differ_somewhere(bufa@, bufb@, i as int),
        decreases size - i,
    {
        if bufa[i] != bufb[i] {
            has_error = true;
            errors.set(i, true);
        }
        i = i + 1;
        assert(has_error == differ_somewhere(bufa@, bufb@, i as int)) by {
            if differ_somewhere(bufa@, bufb@, i as int) && !differ_somewhere(
                bufa@,
                bufb@,
                i - 1,
            ) {
                assert(bufa@[i - 1] != bufb@[i - 1]);
            }
        }
    }
    has_error
}

/// One stretch of the verification phase: the positions it covered, up to
/// and including the next checkpoint (or the end of the range), and the
/// positions among them where the halves differ.
pub struct ScanChunk {
    /// The positions that differ, in increasing order.
    pub mismatches: Vec<usize>,
    /// The first position not covered yet.
    pub next: usize,
    /// Whether the last position covered is a checkpoint, where the caller
    /// reports progress and reads the stop flag.
    pub at_checkpoint: bool,
}

/// Where a stretch of the scan that starts at `start` ends: `next - 1` is
/// the first position from `start` on that is a checkpoint or the last one.
pub open spec fn chunk_bounds(start: int, len: int, interval: int, next: int) -> bool {
    &&& start < next <= len
    &&& forall|k: int| start <= k < next - 1 ==> !#[trigger] is_checkpoint(k, interval)
    &&& next < len ==> is_checkpoint(next - 1, interval)
}

/// Compares `first` and `second` from position `start` on, up to and
/// including the next checkpoint of `interval` or position `len - 1`,
/// whichever comes first; marks each differing position in `mem_errors`
/// and lists them.
pub fn scan_chunk(
    first: &[u8],
    second: &[u8],
    start: usize,
    len: usize,
    interval: usize,
    mem_errors: &mut Vec<bool>,
) -> (r: ScanChunk)
    requires
        start < len,
        len <= first@.len(),
        len <= second@.len(),
        len <= old(mem_errors)@.len(),
        interval >= 1,
    ensures
        chunk_bounds(start as int, len as int, interval as int, r.next as int),
        r.at_checkpoint == is_checkpoint(r.next - 1, interval as int),
        r.mismatches@ == mismatch_positions(first@, second@, start as int, r.next as int),
        marked_errors(
            old(mem_errors)@,
            final(mem_errors)@,
            first@,
            second@,
            start as int,
            r.next as int,
        ),
{
    let mut mismatches: Vec<usize> = Vec::new();
    let mut i: usize = start;
    loop
        invariant
            start <= i < len,
            len <= first@.len(),
            len <= second@.len(),
            len <= old(mem_errors)@.len(),
            interval >= 1,
            forall|k: int| start <= k < i ==> !#[trigger] is_checkpoint(k, interval as int),
            mismatches@ == mismatch_positions(first@, second@, start as int, i as int),
            marked_errors(old(mem_errors)@, mem_errors@, first@, second@, start as int, i as int),
        decreases len - i,
    {
        if first[i] != second[i] {
            mismatches.push(i);
            mem_errors.set(i, true);
        }
        assert(mismatches@ =~= mismatch_positions(first@, second@, start as int, i + 1));
        let checkpoint = i % interval == 0 && i > 0;
        if checkpoint || i + 1 == len {
            return ScanChunk { mismatches, next: i + 1, at_checkpoint: checkpoint };
        }
        i = i + 1;
    }
}

/// The number of `true` entries in `s`.
pub open spec fn count_true(s: Seq<bool>) -> nat
    decreases s.len(),
{
    if s.len() == 0 {
        0
    } else {
        count_true(s.drop_last()) + if s.last() {
            1nat
        } else {
            0nat
        }
    }
}

/// The number of positions marked as errors.
pub fn count_errors(mem_errors: &[bool]) -> (n: usize)
    ensures
        n == count_true(mem_errors@),
{
    let mut n: usize = 0;
    let mut i: usize = 0;
    while i < mem_errors.len()
        invariant
            0 <= i <= mem_errors@.len(),
            n == count_true(mem_errors@.take(i as int)),
            n <= i,
        decreases mem_errors@.len() - i,
    {
        assert(mem_errors@.take(i + 1).drop_last() =~= mem_errors@.take(i as int));
        if mem_errors[i] {
            n = n + 1;
        }
        i = i + 1;
    }
    assert(mem_errors@.take(mem_errors@.len() as int) =~= mem_errors@);
    n
}

/// Width of the error map, in characters.
pub const MAP_WIDTH: usize = 70;

/// Height of the error map, in lines.
pub const MAP_HEIGHT: usize = 20;

/// How many bytes one character of the error map stands for: the range
/// shared out over the map's cells, and at least one.
pub open spec fn block_size_for(total_size: int) -> int {
    let per = total_size / 1400;
    if per < 1 {
        1
    } else {
        per
    }
}

/// How many bytes one character of the error map stands for.
pub fn map_block_size(total_size: usize) -> (r: usize)
    ensures
        r == block_size_for(total_size as int),
        r >= 1,
{
    let per = total_size / (MAP_WIDTH * MAP_HEIGHT);
    if per < 1 {
        1
    } else {
        per
    }
}

/// Whether cell `c` of the map (counted row by row) covers an error: a
/// marked position in `c * block .. min((c + 1) * block, total_size)`.
pub open spec fn cell_has_error(mem_errors: Seq<bool>, total_size: int, c: int) -> bool {
    let block = block_size_for(total_size);
    exists|i: int| c * block <= i < (c + 1) * block && i < total_size && #[trigger] mem_errors[i]
}

/// The error map, row by row: `MAP_WIDTH * MAP_HEIGHT` cells, each `true`
/// where its block of positions holds an error.
pub fn error_map(mem_errors: &[bool], total_size: usize) -> (cells: Vec<bool>)
    requires
        total_size <= mem_errors@.len(),
    ensures
        cells@.len() == 1400,
        forall|c: int|
            0 <= c < 1400 ==> #[trigger] cells@[c] == cell_has_error(
                mem_errors@,
                total_size as int,
                c,
            ),
{
    let block = map_block_size(total_size);
    let mut cells: Vec<bool> = Vec::new();
    let mut c: usize = 0;
    while c < MAP_WIDTH * MAP_HEIGHT
        invariant
            0 <= c <= 1400,
            block == block_size_for(total_size as int),
            block >= 1,
            total_size <= mem_errors@.len(),
            cells@.len() == c,
            forall|d: int|
                0 <= d < c ==> #[trigger] cells@[d] == cell_has_error(
                    mem_errors@,
                    total_size as int,
                    d,
                ),
        decreases 1400 - c,
    {
        proof {
            if total_size >= 1400 {
                assert(c * block <= 1399 * block) by (nonlinear_arith)
                    requires
                        c <= 1399,
                ;
                assert(1400 * block <= total_size) by (nonlinear_arith)
                    requires
                        block == total_size / 1400,
                ;
            } else {
                assert(block == 1);
            }
        }
        let start = c * block;
        let end_raw = start + block;
        let end = if end_raw < total_size {
            end_raw
        } else {
            total_size
        };
        let mut has_error = false;
        let mut i = start;
        while i < end
            invariant_except_break
                !has_error,
                forall|k: int| start <= k < i ==> !#[trigger] mem_errors@[k],
            invariant
                start <= i,
                end <= total_size,
                total_size <= mem_errors@.len(),
            ensures
                has_error ==> start <= i < end && mem_errors@[i as int],
                !has_error ==> forall|k: int| start <= k < end ==> !#[trigger] mem_errors@[k],
            decreases end - i,
        {
            if i < total_size && mem_errors[i] {
                has_error = true;
                break;
            }
            i = i + 1;
        }
        proof {
            assert((c + 1) * block == c * block + block) by (nonlinear_arith);
            if has_error {
                assert(cell_has_error(mem_errors@, total_size as int, c as int)) by {
                    assert(c * block <= i < (c + 1) * block && i < total_size);
                }
            } else {
                assert forall|k: int|
                    c * block <= k < (c + 1) * block && k < total_size implies !#[trigger] mem_errors@[k] by {
                    assert(start <= k < end);
                }
            }
        }
        cells.push(has_error);
        c = c + 1;
    }
    cells
}

/// The bytes that close the error map: ESC, `q` or `Q`.
pub fn is_dismiss_key(b: u8) -> (r: bool)
    ensures
        r == (b == 27 || b == 113 || b == 81),
{
    b == 27 || b == 113 || b == 81
}

} // verus!

verus! {

/// The scan lists exactly the differing positions of its range, each once,
/// in increasing order.
pub proof fn lemma_mismatch_positions_exact(a: Seq<u8>, b: Seq<u8>, lo: int, hi: int)
    requires
        0 <= lo,
        hi <= usize::MAX + 1,
    ensures
        forall|j: int|
            0 <= j < mismatch_positions(a, b, lo, hi).len() ==> lo <= #[trigger] mismatch_positions(
                a,
                b,
                lo,
                hi,
            )[j] < hi && a[mismatch_positions(a, b, lo, hi)[j] as int] != b[mismatch_positions(
                a,
                b,
                lo,
                hi,
            )[j] as int],
        forall|k: int|
            lo <= k < hi && a[k] != b[k] ==> #[trigger] mismatch_positions(a, b, lo, hi).contains(
                k as usize,
            ),
        forall|i: int, j: int|
            0 <= i < j < mismatch_positions(a, b, lo, hi).len() ==> #[trigger] mismatch_positions(
                a,
                b,
                lo,
                hi,
            )[i] < #[trigger] mismatch_positions(a, b, lo, hi)[j],
    decreases hi - lo,
{
    if hi > lo {
        lemma_mismatch_positions_exact(a, b, lo, hi - 1);
        let rest = mismatch_positions(a, b, lo, hi - 1);
        let all = mismatch_positions(a, b, lo, hi);
        assert forall|k: int| lo <= k < hi && a[k] != b[k] implies all.contains(k as usize) by {
            if k < hi - 1 {
                assert(rest.contains(k as usize));
                let j = choose|j: int| 0 <= j < rest.len() && rest[j] == k as usize;
                assert(all[j] == k as usize);
            } else {
                assert(all[all.len() - 1] == k as usize);
            }
        }
    }
}

/// A scan in two stretches lists what a scan of the whole range lists.
pub proof fn lemma_mismatch_positions_split(a: Seq<u8>, b: Seq<u8>, lo: int, mid: int, hi: int)
    requires
        lo <= mid <= hi,
    ensures
        mismatch_positions(a, b, lo, hi) == mismatch_positions(a, b, lo, mid) + mismatch_positions(
            a,
            b,
            mid,
            hi,
        ),
    decreases hi - mid,
{
    if hi > mid {
        lemma_mismatch_positions_split(a, b, lo, mid, hi - 1);
        assert(mismatch_positions(a, b, lo, hi) =~= mismatch_positions(a, b, lo, mid)
            + mismatch_positions(a, b, mid, hi));
    } else {
        assert(mismatch_positions(a, b, lo, hi) =~= mismatch_positions(a, b, lo, mid)
            + mismatch_positions(a, b, mid, hi));
    }
}

/// Where the halves agree over a range, a scan of it finds nothing.
pub proof fn lemma_equal_halves_no_mismatch(a: Seq<u8>, b: Seq<u8>, lo: int, hi: int)
    requires
        forall|k: int| lo <= k < hi ==> #[trigger] a[k] == b[k],
    ensures
        mismatch_positions(a, b, lo, hi) == Seq::<usize>::empty(),
    decreases hi - lo,
{
    if hi > lo {
        lemma_equal_halves_no_mismatch(a, b, lo, hi - 1);
    }
}

} // verus!

verus! {

/// A scan of `lo..hi` lists at most `hi - lo` positions.
pub proof fn lemma_mismatch_positions_len(a: Seq<u8>, b: Seq<u8>, lo: int, hi: int)
    requires
        lo <= hi,
    ensures
        mismatch_positions(a, b, lo, hi).len() <= hi - lo,
    decreases hi - lo,
{
    if hi > lo {
        lemma_mismatch_positions_len(a, b, lo, hi - 1);
    }
}

/// The comparison phase of a test in progress: the two halves, the range
/// compared, how far the scan has come, and how many differing bytes it has
/// counted.
pub struct VerifyProgress<'a> {
    first: &'a [u8],
    second: &'a [u8],
    len: usize,
    interval: usize,
    pos: usize,
    errors: u64,
}

impl<'a> VerifyProgress<'a> {
    /// The scan stays within the range, and its count is that of the
    /// positions scanned so far where the halves differ.
    #[verifier::type_invariant]
    spec fn counts_scanned_differences(self) -> bool {
        &&& self.pos <= self.len
        &&& self.len <= self.first@.len()
        &&& self.len <= self.second@.len()
        &&& self.interval >= 1
        &&& self.errors == mismatch_positions(self.first@, self.second@, 0, self.pos as int).len()
    }

    /// The first half.
    pub closed spec fn spec_first(self) -> Seq<u8> {
        self.first@
    }

    /// The second half.
    pub closed spec fn spec_second(self) -> Seq<u8> {
        self.second@
    }

    /// The length of the range compared.
    pub closed spec fn spec_len(self) -> usize {
        self.len
    }

    /// The polling interval of the comparison.
    pub closed spec fn spec_interval(self) -> usize {
        self.interval
    }

    /// The first position not scanned yet.
    pub closed spec fn spec_pos(self) -> usize {
        self.pos
    }

    /// The differing bytes counted so far.
    pub closed spec fn spec_errors(self) -> u64 {
        self.errors
    }

    /// A comparison of positions `0..len` of the two halves that has not
    /// started, reporting progress at the checkpoints of `interval`.
    pub fn new(first: &'a [u8], second: &'a [u8], len: usize, interval: usize) -> (r: Self)
        requires
            len <= first@.len(),
            len <= second@.len(),
            interval >= 1,
        ensures
            r.spec_first() == first@,
            r.spec_second() == second@,
            r.spec_len() == len,
            r.spec_interval() == interval,
            r.spec_pos() == 0,
            r.spec_errors() == 0,
    {
        VerifyProgress { first, second, len, interval, pos: 0, errors: 0 }
    }

    /// The first position not scanned yet.
    pub fn pos(&self) -> (r: usize)
        ensures
            r == self.spec_pos(),
            r <= self.spec_len(),
    {
        proof {
            use_type_invariant(self);
        }
        self.pos
    }

    /// Whether the whole range has been scanned.
    pub fn done(&self) -> (r: bool)
        ensures
            r == (self.spec_pos() == self.spec_len()),
    {
        proof {
            use_type_invariant(self);
        }
        self.pos == self.len
    }

    /// The differing bytes counted so far: the positions scanned so far
    /// where the halves differ.
    pub fn errors(&self) -> (r: u64)
        ensures
            r == self.spec_errors(),
            r == mismatch_positions(self.spec_first(), self.spec_second(), 0, self.spec_pos() as int).len(),
    {
        proof {
            use_type_invariant(self);
        }
        self.errors
    }

    /// Scans the next stretch of the halves (as `scan_chunk` does, from the
    /// first position not scanned yet), adds its differences to the count,
    /// and moves on past it.
    pub fn step(&mut self, mem_errors: &mut Vec<bool>) -> (chunk: ScanChunk)
        requires
            old(self).spec_pos() < old(self).spec_len(),
            old(self).spec_len() <= old(mem_errors)@.len(),
        ensures
            chunk_bounds(
                old(self).spec_pos() as int,
                old(self).spec_len() as int,
                old(self).spec_interval() as int,
                chunk.next as int,
            ),
            chunk.at_checkpoint == is_checkpoint(chunk.next - 1, old(self).spec_interval() as int),
            chunk.mismatches@ == mismatch_positions(
                old(self).spec_first(),
                old(self).spec_second(),
                old(self).spec_pos() as int,
                chunk.next as int,
            ),
            marked_errors(
                old(mem_errors)@,
                final(mem_errors)@,
                old(self).spec_first(),
                old(self).spec_second(),
                old(self).spec_pos() as int,
                chunk.next as int,
            ),
            final(self).spec_first() == old(self).spec_first(),
            final(self).spec_second() == old(self).spec_second(),
            final(self).spec_len() == old(self).spec_len(),
            final(self).spec_interval() == old(self).spec_interval(),
            final(self).spec_pos() == chunk.next,
            final(self).spec_errors() == old(self).spec_errors() + chunk.mismatches@.len(),
            final(self).spec_errors() == mismatch_positions(
                final(self).spec_first(),
                final(self).spec_second(),
                0,
                final(self).spec_pos() as int,
            ).len(),
    {
        proof {
            use_type_invariant(&*self);
        }
        let start = self.pos;
        let chunk = scan_chunk(self.first, self.second, start, self.len, self.interval, mem_errors);
        proof {
            lemma_mismatch_positions_len(self.first@, self.second@, start as int, chunk.next as int);
            lemma_mismatch_positions_split(self.first@, self.second@, 0, start as int, chunk.next as int);
            lemma_mismatch_positions_len(self.first@, self.second@, 0, start as int);
        }
        let found = chunk.mismatches.len() as u64;
        *self = VerifyProgress {
            first: self.first,
            second: self.second,
            len: self.len,
            interval: self.interval,
            pos: chunk.next,
            errors: self.errors + found,
        };
        chunk
    }

    /// Closes a compared test: once the whole range has been scanned, adds
    /// the number of positions where the halves differ to the errors, and
    /// the length of the range to the bytes tested.
    pub fn finish(self, total_errors: &mut u64, total_tested: &mut u64)
        requires
            self.spec_pos() == self.spec_len(),
            *old(total_errors) + self.spec_errors() <= u64::MAX,
            *old(total_tested) + self.spec_len() <= u64::MAX,
        ensures
            *final(total_errors) == *old(total_errors) + mismatch_positions(
                self.spec_first(),
                self.spec_second(),
                0,
                self.spec_len() as int,
            ).len(),
            *final(total_tested) == *old(total_tested) + self.spec_len(),
    {
        proof {
            use_type_invariant(&self);
        }
        record_result(total_errors, total_tested, self.errors, self.len);
    }
}

} // verus!
