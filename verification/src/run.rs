//! The bookkeeping of a test run: the totals kept over the runs, and what
//! is reported once a test's halves have been compared.

use vstd::prelude::*;

use crate::catalog::{number_of, test_number, TestKind};

verus! {

/// What is shown once a test's halves have been compared.
#[derive(Clone, Copy, PartialEq, Eq, Structural, Debug)]
pub enum TestReport {
    /// No difference: the test passed.
    Success,
    /// Differences, and the test ran on its own: the error map follows.
    FailedWithMap,
    /// Differences while running a list of tests: a hint to rerun test
    /// number `n` alone (`--test n`) for its error map.
    FailedWithHint(usize),
}

/// What is shown after a test with `errors` differing bytes; `listed` is
/// the test where it ran as part of a list, `None` where it ran alone.
pub open spec fn report_for(errors: int, listed: Option<TestKind>) -> TestReport {
    if errors == 0 {
        TestReport::Success
    } else {
        match listed {
            None => TestReport::FailedWithMap,
            Some(k) => TestReport::FailedWithHint(number_of(k) as usize),
        }
    }
}

/// What is shown after a test with `errors` differing bytes; `listed` is
/// the test where it ran as part of a list, `None` where it ran alone.
pub fn result_report(errors: u64, listed: Option<TestKind>) -> (r: TestReport)
    ensures
        r == report_for(errors as int, listed),
        (r == TestReport::Success) == (errors == 0),
        errors > 0 && listed is None ==> r == TestReport::FailedWithMap,
        forall|k: TestKind|
            errors > 0 && listed == Some(k) ==> r == TestReport::FailedWithHint(
                #[trigger] number_of(k) as usize,
            ),
{
    if errors == 0 {
        TestReport::Success
    } else {
        match listed {
            None => TestReport::FailedWithMap,
            Some(k) => TestReport::FailedWithHint(test_number(k)),
        }
    }
}

/// Adds a compared test to the totals: its differing bytes to the errors,
/// the length of a half to the bytes tested.
pub fn record_result(total_errors: &mut u64, total_tested: &mut u64, errors: u64, halflen: usize)
    requires
        *old(total_errors) + errors <= u64::MAX,
        *old(total_tested) + halflen <= u64::MAX,
    ensures
        *final(total_errors) == *old(total_errors) + errors,
        *final(total_tested) == *old(total_tested) + halflen,
{
    *total_errors = *total_errors + errors;
    *total_tested = *total_tested + halflen as u64;
}

} // verus!

verus! {

/// The line that opens the summary, after the runs.
#[derive(Clone, Copy, PartialEq, Eq, Structural, Debug)]
pub enum SummaryHeader {
    /// Ultra mode ran all sixteen tests once.
    UltraOnce,
    /// Normal mode ran its tests once.
    AllOnce,
    /// Ultra mode ran in a loop, this many times.
    UltraLoop(u64),
    /// Normal mode ran in a loop, this many times.
    AllLoop(u64),
    /// A single test was chosen: no such line.
    SingleTest,
}

/// The line that opens the summary for the mode of the run.
pub open spec fn summary_header_for(
    single_test: bool,
    loop_mode: bool,
    ultra: bool,
    loop_count: u64,
) -> SummaryHeader {
    if single_test {
        SummaryHeader::SingleTest
    } else if !loop_mode {
        if ultra {
            SummaryHeader::UltraOnce
        } else {
            SummaryHeader::AllOnce
        }
    } else if ultra {
        SummaryHeader::UltraLoop(loop_count)
    } else {
        SummaryHeader::AllLoop(loop_count)
    }
}

/// The line that opens the summary for the mode of the run.
pub fn summary_header(single_test: bool, loop_mode: bool, ultra: bool, loop_count: u64) -> (r:
    SummaryHeader)
    ensures
        r == summary_header_for(single_test, loop_mode, ultra, loop_count),
{
    if single_test {
        SummaryHeader::SingleTest
    } else if !loop_mode {
        if ultra {
            SummaryHeader::UltraOnce
        } else {
            SummaryHeader::AllOnce
        }
    } else if ultra {
        SummaryHeader::UltraLoop(loop_count)
    } else {
        SummaryHeader::AllLoop(loop_count)
    }
}

/// Whether the summary shows the number of loops: only for a single test
/// that ran at least once in a loop.
pub fn shows_loop_count(single_test: bool, loop_count: u64) -> (r: bool)
    ensures
        r == (loop_count > 0 && single_test),
{
    loop_count > 0 && single_test
}

/// Whether the list of tests ends after a test: where it stopped, or the
/// stop flag is set by now.
pub fn ends_test_list(was_interrupted: bool, stop_requested: bool) -> (r: bool)
    ensures
        r == (was_interrupted || stop_requested),
{
    was_interrupted || stop_requested
}

/// Whether to pause before the next test: after every test of the list but
/// the last.
pub fn pause_after(idx: usize, count: usize) -> (r: bool)
    requires
        idx < count,
    ensures
        r == (idx + 1 < count),
{
    idx < count - 1
}

} // verus!
